//! Network events reported by WFP (used in learning mode to see what was blocked).

use vstd::prelude::*;
use vstd::std_specs::convert::FromSpecImpl;

use crate::condition::IpAddr;
use crate::errors::{WfpError, WfpResult};
use crate::text::{decimal, push_decimal};

verus! {

/// Type of network event
#[derive(Debug, Clone, Copy, PartialEq, Eq, Structural)]
pub enum NetworkEventType {
    /// Connection was blocked by a filter (code 3)
    ClassifyDrop,
    /// Connection was allowed by a filter (code 6, Win8+)
    ClassifyAllow,
    /// App container capability drop (code 7, Win8+)
    CapabilityDrop,
    /// Other event type
    Other(u32),
}

/// The event type of a WFP event type code.
pub open spec fn event_type_of(value: u32) -> NetworkEventType {
    if value == 3 {
        NetworkEventType::ClassifyDrop
    } else if value == 6 {
        NetworkEventType::ClassifyAllow
    } else if value == 7 {
        NetworkEventType::CapabilityDrop
    } else {
        NetworkEventType::Other(value)
    }
}

/// The WFP code of an event type.
pub open spec fn event_type_code(t: NetworkEventType) -> u32 {
    match t {
        NetworkEventType::ClassifyDrop => 3,
        NetworkEventType::ClassifyAllow => 6,
        NetworkEventType::CapabilityDrop => 7,
        NetworkEventType::Other(v) => v,
    }
}

impl From<u32> for NetworkEventType {
    fn from(value: u32) -> (r: Self) {
        if value == 3 {
            NetworkEventType::ClassifyDrop
        } else if value == 6 {
            NetworkEventType::ClassifyAllow
        } else if value == 7 {
            NetworkEventType::CapabilityDrop
        } else {
            NetworkEventType::Other(value)
        }
    }
}

impl FromSpecImpl<u32> for NetworkEventType {
    open spec fn obeys_from_spec() -> bool {
        true
    }

    open spec fn from_spec(v: u32) -> NetworkEventType {
        event_type_of(v)
    }
}

/// Reading an event type code loses nothing: the type gives back its code.
pub proof fn lemma_event_type_roundtrip(value: u32)
    ensures
        event_type_code(event_type_of(value)) == value,
{
}

/// An instant as whole seconds and nanoseconds after the UNIX epoch.
#[derive(Debug, Clone, Copy, PartialEq, Eq, Structural)]
pub struct EventTime {
    /// Seconds after 1970-01-01T00:00:00Z
    pub secs: u64,
    /// Nanoseconds within the second
    pub nanos: u32,
}

/// Difference between the Windows epoch (1601) and the UNIX epoch (1970) in 100-ns intervals.
pub const WINDOWS_TO_UNIX_EPOCH: u64 = 116444736000000000u64;

/// The instant of a FILETIME (100-ns intervals since 1601-01-01): the same
/// instant after the UNIX epoch, or the epoch itself for earlier instants.
pub open spec fn filetime_instant(high: u32, low: u32) -> EventTime {
    let intervals = high * 0x1_0000_0000 + low;
    if intervals >= WINDOWS_TO_UNIX_EPOCH {
        let d = intervals - WINDOWS_TO_UNIX_EPOCH;
        EventTime { secs: (d / 10_000_000) as u64, nanos: ((d % 10_000_000) * 100) as u32 }
    } else {
        EventTime { secs: 0, nanos: 0 }
    }
}

/// A FILETIME instant on or after the UNIX epoch is the same instant: its
/// seconds and nanoseconds after the epoch add up to exactly the 100-ns
/// intervals after the epoch, with fewer than a second of nanoseconds; an
/// earlier instant is the epoch itself.
pub proof fn lemma_filetime_instant(high: u32, low: u32)
    ensures
        ({
            let intervals = high * 0x1_0000_0000 + low;
            let t = filetime_instant(high, low);
            &&& intervals >= WINDOWS_TO_UNIX_EPOCH ==> t.secs * 1_000_000_000 + t.nanos == (
            intervals - WINDOWS_TO_UNIX_EPOCH) * 100 && t.nanos < 1_000_000_000
            &&& intervals < WINDOWS_TO_UNIX_EPOCH ==> t.secs == 0 && t.nanos == 0
        }),
{
    let intervals = high * 0x1_0000_0000 + low;
    if intervals >= WINDOWS_TO_UNIX_EPOCH {
        let d = intervals - WINDOWS_TO_UNIX_EPOCH;
        assert(d < 0x1_0000_0000_0000_0000) by (nonlinear_arith)
            requires
                d == high * 0x1_0000_0000 + low - WINDOWS_TO_UNIX_EPOCH,
                high < 0x1_0000_0000,
                low < 0x1_0000_0000,
        ;
        assert(d == (d / 10_000_000) * 10_000_000 + d % 10_000_000) by (nonlinear_arith);
        assert(0 <= d % 10_000_000 < 10_000_000) by (nonlinear_arith);
        assert(d / 10_000_000 < 0x1_0000_0000_0000_0000) by (nonlinear_arith)
            requires
                d < 0x1_0000_0000_0000_0000,
                d >= 0,
        ;
    }
}

/// Converts a FILETIME given by its high and low halves.
pub fn filetime_to_unix(high: u32, low: u32) -> (r: EventTime)
    ensures
        r == filetime_instant(high, low),
        r.nanos < 1_000_000_000,
{
    let intervals: u64 = (high as u64) * 0x1_0000_0000 + (low as u64);
    if intervals >= WINDOWS_TO_UNIX_EPOCH {
        let d = intervals - WINDOWS_TO_UNIX_EPOCH;
        let secs = d / 10_000_000;
        let nanos = ((d % 10_000_000) * 100) as u32;
        EventTime { secs, nanos }
    } else {
        EventTime { secs: 0, nanos: 0 }
    }
}

/// A network event as WFP reports it, with its strings already copied out
/// and its addresses already read in both forms.
#[derive(Debug, Clone)]
pub struct RawNetworkEvent {
    /// The WFP event type code
    pub event_type: u32,
    /// High half of the event's FILETIME
    pub time_high: u32,
    /// Low half of the event's FILETIME
    pub time_low: u32,
    /// The UTF-16 units of the application id up to its terminating NUL, or `None` when absent
    pub app_id: Option<Vec<u16>>,
    /// The IP version code (0 = IPv4, 1 = IPv6)
    pub ip_version: i32,
    /// The local address read as IPv4 (first octet in the most significant byte)
    pub local_v4: u32,
    /// The remote address read as IPv4
    pub remote_v4: u32,
    /// The local address read as IPv6 (first group in the most significant bits)
    pub local_v6: u128,
    /// The remote address read as IPv6
    pub remote_v6: u128,
    /// IP protocol number
    pub protocol: u8,
    /// Local port
    pub local_port: u16,
    /// Remote port
    pub remote_port: u16,
    /// Filter id and layer id of a drop, when the event is a classify drop and carries them
    pub drop_info: Option<(u64, u16)>,
}

/// Network event from WFP
#[derive(Debug, Clone)]
pub struct NetworkEvent {
    /// When the event occurred
    pub timestamp: EventTime,
    /// Type of event (Classify Drop, Classify Allow, etc.)
    pub event_type: NetworkEventType,
    /// The UTF-16 units of the application path that triggered the event (if available)
    pub app_path: Option<Vec<u16>>,
    /// IP protocol (TCP=6, UDP=17, etc.)
    pub protocol: u8,
    /// Local IP address
    pub local_addr: Option<IpAddr>,
    /// Remote IP address
    pub remote_addr: Option<IpAddr>,
    /// Local port
    pub local_port: u16,
    /// Remote port
    pub remote_port: u16,
    /// Filter ID that triggered the event (for CLASSIFY_DROP)
    pub filter_id: Option<u64>,
    /// Layer ID where event occurred
    pub layer_id: Option<u16>,
}

/// Whether the drop details of an event are to be read: only a classify drop has them.
pub fn wants_drop_info(event_type: u32) -> (r: bool)
    ensures
        r == (event_type_of(event_type) is ClassifyDrop),
{
    event_type == 3
}

/// The local and remote addresses of an event of an IP version.
pub open spec fn event_addresses(raw: RawNetworkEvent) -> (Option<IpAddr>, Option<IpAddr>) {
    if raw.ip_version == 0 {
        (Some(IpAddr::V4(raw.local_v4)), Some(IpAddr::V4(raw.remote_v4)))
    } else if raw.ip_version == 1 {
        (Some(IpAddr::V6(raw.local_v6)), Some(IpAddr::V6(raw.remote_v6)))
    } else {
        (None, None)
    }
}

/// The addresses of an event are read by its IP version: for IPv4 (0) the
/// local and remote IPv4 addresses, for IPv6 (1) the local and remote IPv6
/// addresses, each on its own side; for any other version none.
pub proof fn lemma_event_addresses(raw: RawNetworkEvent)
    ensures
        raw.ip_version == 0 ==> event_addresses(raw) == (
            Some(IpAddr::V4(raw.local_v4)),
            Some(IpAddr::V4(raw.remote_v4)),
        ),
        raw.ip_version == 1 ==> event_addresses(raw) == (
            Some(IpAddr::V6(raw.local_v6)),
            Some(IpAddr::V6(raw.remote_v6)),
        ),
        raw.ip_version != 0 && raw.ip_version != 1 ==> event_addresses(raw) == (
            None::<IpAddr>,
            None::<IpAddr>,
        ),
{
}

/// Only a classify drop (type 3) is read as a drop, and every other code
/// keeps its number.
pub proof fn lemma_event_types(value: u32)
    ensures
        (event_type_of(value) is ClassifyDrop) <==> value == 3,
        (event_type_of(value) is ClassifyAllow) <==> value == 6,
        (event_type_of(value) is CapabilityDrop) <==> value == 7,
        value != 3 && value != 6 && value != 7 ==> event_type_of(value) == NetworkEventType::Other(
            value,
        ),
{
}

impl NetworkEvent {
    /// The event that WFP reported.
    pub fn from_raw(raw: RawNetworkEvent) -> (r: NetworkEvent)
        ensures
            r.timestamp == filetime_instant(raw.time_high, raw.time_low),
            r.event_type == event_type_of(raw.event_type),
            match raw.app_id {
                Some(u) => if u@.len() == 0 {
                    r.app_path is None
                } else {
                    r.app_path matches Some(p) && p@ == u@
                },
                None => r.app_path is None,
            },
            r.protocol == raw.protocol,
            (r.local_addr, r.remote_addr) == event_addresses(raw),
            r.local_port == raw.local_port,
            r.remote_port == raw.remote_port,
            r.filter_id == (if r.event_type is ClassifyDrop && raw.drop_info is Some {
                Some(raw.drop_info.unwrap().0)
            } else {
                None
            }),
            r.layer_id == (if r.event_type is ClassifyDrop && raw.drop_info is Some {
                Some(raw.drop_info.unwrap().1)
            } else {
                None
            }),
    {
        let event_type = NetworkEventType::from(raw.event_type);
        let timestamp = filetime_to_unix(raw.time_high, raw.time_low);
        let app_path = match raw.app_id {
            Some(u) => if u.len() == 0 {
                None
            } else {
                Some(u)
            },
            None => None,
        };
        let (local_addr, remote_addr) = if raw.ip_version == 0 {
            (Some(IpAddr::V4(raw.local_v4)), Some(IpAddr::V4(raw.remote_v4)))
        } else if raw.ip_version == 1 {
            (Some(IpAddr::V6(raw.local_v6)), Some(IpAddr::V6(raw.remote_v6)))
        } else {
            (None, None)
        };
        let is_drop = match event_type {
            NetworkEventType::ClassifyDrop => true,
            _ => false,
        };
        let (filter_id, layer_id) = if is_drop {
            match raw.drop_info {
                Some((f, l)) => (Some(f), Some(l)),
                None => (None, None),
            }
        } else {
            (None, None)
        };
        NetworkEvent {
            timestamp,
            event_type,
            app_path,
            protocol: raw.protocol,
            local_addr,
            remote_addr,
            local_port: raw.local_port,
            remote_port: raw.remote_port,
            filter_id,
            layer_id,
        }
    }
}

/// The outcome of subscribing to network events, given the subscribe call's result code.
pub fn subscribe_outcome(code: u32) -> (r: WfpResult<()>)
    ensures
        r is Ok <==> code == 0,
        r matches Err(e) ==> (e matches WfpError::Other(m) && m@
            == "Failed to subscribe to WFP events: error code "@ + decimal(code as nat)),
{
    if code == 0 {
        return Ok(());
    }
    let mut m = String::from_str("Failed to subscribe to WFP events: error code ");
    push_decimal(&mut m, code as u64);
    Err(WfpError::Other(m))
}

} // verus!
