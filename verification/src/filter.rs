//! Filter rule definition: what a firewall filter matches and what it does.

use vstd::prelude::*;

use crate::condition::{IpAddrMask, Protocol};
use crate::layer::{weight_value, FilterWeight};

verus! {

/// Direction of network traffic
#[derive(Debug, Clone, Copy, PartialEq, Eq, Hash, Structural)]
pub enum Direction {
    /// Traffic coming from the network to the local machine
    Inbound,
    /// Traffic initiated by the local machine going out
    Outbound,
}

/// Action to take when a filter matches
#[derive(Debug, Clone, Copy, PartialEq, Eq, Hash, Structural)]
pub enum Action {
    /// Allow the traffic through
    Permit,
    /// Block the traffic
    Block,
}

/// A WFP filter rule definition.
///
/// All condition fields are optional; omitting a condition means "match all"
/// for that field.
#[derive(Debug, Clone)]
pub struct FilterRule {
    /// Human-readable rule name (displayed in WFP management tools)
    pub name: String,
    /// Traffic direction
    pub direction: Direction,
    /// Action to take (permit or block)
    pub action: Action,
    /// Filter priority (higher weight = evaluated first)
    pub weight: u64,
    /// Application executable path (converted to a WFP application id when the filter is added)
    pub app_path: Option<String>,
    /// Windows service name (matched via service SID)
    pub service_name: Option<String>,
    /// AppContainer SID (for UWP/packaged apps)
    pub app_container_sid: Option<String>,
    /// Local IP address with CIDR mask
    pub local_ip: Option<IpAddrMask>,
    /// Remote IP address with CIDR mask
    pub remote_ip: Option<IpAddrMask>,
    /// Local port number
    pub local_port: Option<u16>,
    /// Remote port number
    pub remote_port: Option<u16>,
    /// IP protocol (TCP, UDP, ICMP, etc.)
    pub protocol: Option<Protocol>,
}

/// `o` holds a string whose characters are `s`.
pub open spec fn holds_text(o: Option<String>, s: Seq<char>) -> bool {
    o matches Some(x) && x@ == s
}

impl FilterRule {
    /// A rule with the given name, direction and action, the user-permit
    /// weight and no conditions.
    pub open spec fn fresh(r: FilterRule, name: Seq<char>, direction: Direction, action: Action) -> bool {
        &&& r.name@ == name
        &&& r.direction == direction
        &&& r.action == action
        &&& r.weight == weight_value(FilterWeight::UserPermit)
        &&& r.app_path is None
        &&& r.service_name is None
        &&& r.app_container_sid is None
        &&& r.local_ip is None
        &&& r.remote_ip is None
        &&& r.local_port is None
        &&& r.remote_port is None
        &&& r.protocol is None
    }

    /// Create a new filter rule with required fields.
    pub fn new(name: &str, direction: Direction, action: Action) -> (r: Self)
        ensures
            Self::fresh(r, name@, direction, action),
    {
        FilterRule {
            name: String::from_str(name),
            direction,
            action,
            weight: FilterWeight::UserPermit.value(),
            app_path: None,
            service_name: None,
            app_container_sid: None,
            local_ip: None,
            remote_ip: None,
            local_port: None,
            remote_port: None,
            protocol: None,
        }
    }

    /// Set the filter weight (priority).
    pub fn with_weight(self, weight: FilterWeight) -> (r: Self)
        ensures
            r == (FilterRule { weight: weight_value(weight), ..self }),
    {
        FilterRule { weight: weight.value(), ..self }
    }

    /// Set a raw weight value.
    pub fn with_raw_weight(self, weight: u64) -> (r: Self)
        ensures
            r == (FilterRule { weight, ..self }),
    {
        FilterRule { weight, ..self }
    }

    /// Set the application path to filter.
    pub fn with_app_path(self, path: &str) -> (r: Self)
        ensures
            holds_text(r.app_path, path@),
            r == (FilterRule { app_path: r.app_path, ..self }),
    {
        FilterRule { app_path: Some(String::from_str(path)), ..self }
    }

    /// Set the protocol to filter.
    pub fn with_protocol(self, protocol: Protocol) -> (r: Self)
        ensures
            r == (FilterRule { protocol: Some(protocol), ..self }),
    {
        FilterRule { protocol: Some(protocol), ..self }
    }

    /// Set the remote port to filter.
    pub fn with_remote_port(self, port: u16) -> (r: Self)
        ensures
            r == (FilterRule { remote_port: Some(port), ..self }),
    {
        FilterRule { remote_port: Some(port), ..self }
    }

    /// Set the local port to filter.
    pub fn with_local_port(self, port: u16) -> (r: Self)
        ensures
            r == (FilterRule { local_port: Some(port), ..self }),
    {
        FilterRule { local_port: Some(port), ..self }
    }

    /// Set the remote IP address with CIDR mask.
    pub fn with_remote_ip(self, ip: IpAddrMask) -> (r: Self)
        ensures
            r == (FilterRule { remote_ip: Some(ip), ..self }),
    {
        FilterRule { remote_ip: Some(ip), ..self }
    }

    /// Set the local IP address with CIDR mask.
    pub fn with_local_ip(self, ip: IpAddrMask) -> (r: Self)
        ensures
            r == (FilterRule { local_ip: Some(ip), ..self }),
    {
        FilterRule { local_ip: Some(ip), ..self }
    }

    /// Set the Windows service name.
    pub fn with_service_name(self, name: &str) -> (r: Self)
        ensures
            holds_text(r.service_name, name@),
            r == (FilterRule { service_name: r.service_name, ..self }),
    {
        FilterRule { service_name: Some(String::from_str(name)), ..self }
    }

    /// Set the AppContainer SID.
    pub fn with_app_container_sid(self, sid: &str) -> (r: Self)
        ensures
            holds_text(r.app_container_sid, sid@),
            r == (FilterRule { app_container_sid: r.app_container_sid, ..self }),
    {
        FilterRule { app_container_sid: Some(String::from_str(sid)), ..self }
    }

    /// Block all outbound traffic (no conditions).
    pub fn block_all_outbound() -> (r: Self)
        ensures
            Self::fresh(
                FilterRule { weight: weight_value(FilterWeight::UserPermit), ..r },
                "Block All Outbound"@,
                Direction::Outbound,
                Action::Block,
            ),
            r.weight == weight_value(FilterWeight::Blocklist),
    {
        Self::new("Block All Outbound", Direction::Outbound, Action::Block).with_weight(
            FilterWeight::Blocklist,
        )
    }

    /// Allow all outbound traffic (no conditions).
    pub fn allow_all_outbound() -> (r: Self)
        ensures
            Self::fresh(
                FilterRule { weight: weight_value(FilterWeight::UserPermit), ..r },
                "Allow All Outbound"@,
                Direction::Outbound,
                Action::Permit,
            ),
            r.weight == weight_value(FilterWeight::DefaultPermit),
    {
        Self::new("Allow All Outbound", Direction::Outbound, Action::Permit).with_weight(
            FilterWeight::DefaultPermit,
        )
    }

    /// Block all inbound traffic (no conditions).
    pub fn block_all_inbound() -> (r: Self)
        ensures
            Self::fresh(
                FilterRule { weight: weight_value(FilterWeight::UserPermit), ..r },
                "Block All Inbound"@,
                Direction::Inbound,
                Action::Block,
            ),
            r.weight == weight_value(FilterWeight::DefaultBlock),
    {
        Self::new("Block All Inbound", Direction::Inbound, Action::Block).with_weight(
            FilterWeight::DefaultBlock,
        )
    }

    /// Default block rule (lowest priority catch-all).
    pub fn default_block() -> (r: Self)
        ensures
            Self::fresh(
                FilterRule { weight: weight_value(FilterWeight::UserPermit), ..r },
                "Default Block"@,
                Direction::Outbound,
                Action::Block,
            ),
            r.weight == weight_value(FilterWeight::DefaultBlock),
    {
        Self::new("Default Block", Direction::Outbound, Action::Block).with_weight(
            FilterWeight::DefaultBlock,
        )
    }
}

} // verus!
