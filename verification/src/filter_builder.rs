//! Translation of filter rules into WFP filter descriptions, and the outcome
//! of the WFP calls that add and delete filters.
//!
//! WFP matches an application by its NT kernel path, so a rule's application
//! path is first turned into a WFP application id; if that fails, the filter
//! is not added (a filter without that condition would match every
//! application).

use vstd::arithmetic::power2::{lemma2_to64, lemma_pow2_adds, lemma_pow2_strictly_increases, pow2};
use vstd::bits::lemma_u32_shl_is_mul;
use vstd::prelude::*;

use crate::condition::{protocol_number, IpAddr, IpAddrMask, Protocol};
use crate::constants::{
    Guid, CONDITION_ALE_APP_ID, CONDITION_ALE_PACKAGE_ID, CONDITION_ALE_USER_ID,
    CONDITION_IP_LOCAL_ADDRESS, CONDITION_IP_LOCAL_PORT,
    CONDITION_IP_PROTOCOL, CONDITION_IP_REMOTE_ADDRESS, CONDITION_IP_REMOTE_PORT,
    FWP_ACTION_BLOCK, FWP_ACTION_PERMIT, FWP_BYTE_BLOB_TYPE, FWP_MATCH_EQUAL,
    FWP_SECURITY_DESCRIPTOR_TYPE, FWP_SID, FWP_UINT16,
    FWP_UINT8, FWP_V4_ADDR_MASK, FWP_V6_ADDR_MASK, TRUSTY_PROVIDER_GUID, TRUSTY_SUBLAYER_GUID,
};
use crate::errors::{WfpError, WfpResult};
use crate::filter::{Action, FilterRule};
use crate::layer::{layer_for, select_layer};
use crate::text::{decimal, push_decimal};

verus! {

/// The WFP action type of an action.
pub open spec fn action_type(action: Action) -> u32 {
    match action {
        Action::Permit => FWP_ACTION_PERMIT,
        Action::Block => FWP_ACTION_BLOCK,
    }
}

/// The IPv4 netmask of a prefix length: the 32-bit value whose highest
/// `min(prefix_len, 32)` bits are set and whose other bits are clear.
pub open spec fn v4_mask(prefix_len: u8) -> u32 {
    if prefix_len >= 32 {
        0xffff_ffffu32
    } else {
        (pow2(32) - pow2((32 - prefix_len) as nat)) as u32
    }
}

/// The netmask of a prefix length sets the highest bits one by one: length
/// 0 gives no bits, each further length up to 32 sets the next lower bit, and
/// lengths from 32 on give all bits.
pub proof fn lemma_v4_mask_bits(p: u8)
    ensures
        v4_mask(0) == 0,
        p < 32 ==> v4_mask((p + 1) as u8) as nat == v4_mask(p) as nat + pow2((31 - p) as nat),
        p >= 32 ==> v4_mask(p) == 0xffff_ffffu32,
{
    lemma2_to64();
    if p < 32 {
        let e = (31 - p) as nat;
        lemma_pow2_adds(1, e);
        assert(pow2(e + 1) == 2 * pow2(e));
        assert(e + 1 == (32 - p) as nat);
        lemma_pow2_strictly_increases(e, 32);
        if p > 0 {
            lemma_pow2_strictly_increases((32 - p) as nat, 32);
        }
        if p + 1 < 32 {
            lemma_pow2_strictly_increases((31 - p) as nat, 32);
        }
    }
}

/// The value a filter condition compares with.
#[derive(Debug, Clone, Copy, PartialEq, Eq, Structural)]
pub enum ConditionValue {
    /// The WFP application id of the rule's application path (a byte blob
    /// that WFP makes from the path when the filter is added)
    AppId,
    /// A security descriptor that grants access to the SID of the rule's
    /// Windows service (made from the service name when the filter is added)
    ServiceSid,
    /// The SID of the rule's AppContainer (made from its SID string when the
    /// filter is added)
    PackageSid,
    /// An 8-bit number
    Uint8(u8),
    /// A 16-bit number
    Uint16(u16),
    /// An IPv4 address and netmask
    V4AddrMask { v4_addr: u32, mask: u32 },
    /// An IPv6 address and prefix length
    V6AddrMask { v6_addr: u128, prefix_length: u8 },
}

/// The WFP data type of a condition value.
pub open spec fn value_type_of(v: ConditionValue) -> i32 {
    match v {
        ConditionValue::AppId => FWP_BYTE_BLOB_TYPE,
        ConditionValue::ServiceSid => FWP_SECURITY_DESCRIPTOR_TYPE,
        ConditionValue::PackageSid => FWP_SID,
        ConditionValue::Uint8(_) => FWP_UINT8,
        ConditionValue::Uint16(_) => FWP_UINT16,
        ConditionValue::V4AddrMask { .. } => FWP_V4_ADDR_MASK,
        ConditionValue::V6AddrMask { .. } => FWP_V6_ADDR_MASK,
    }
}

impl ConditionValue {
    /// The WFP data type of the value.
    pub fn value_type(&self) -> (r: i32)
        ensures
            r == value_type_of(*self),
    {
        match self {
            ConditionValue::AppId => FWP_BYTE_BLOB_TYPE,
            ConditionValue::ServiceSid => FWP_SECURITY_DESCRIPTOR_TYPE,
            ConditionValue::PackageSid => FWP_SID,
            ConditionValue::Uint8(_) => FWP_UINT8,
            ConditionValue::Uint16(_) => FWP_UINT16,
            ConditionValue::V4AddrMask { .. } => FWP_V4_ADDR_MASK,
            ConditionValue::V6AddrMask { .. } => FWP_V6_ADDR_MASK,
        }
    }
}

/// One condition of a WFP filter.
#[derive(Debug, Clone, Copy, PartialEq, Eq, Structural)]
pub struct FilterCondition {
    /// The field of the traffic that is compared
    pub field_key: Guid,
    /// How the field is compared (`FWP_MATCH_EQUAL`)
    pub match_type: i32,
    /// The value the field is compared with
    pub value: ConditionValue,
}

/// An equality condition on a field.
pub open spec fn cond(key: Guid, value: ConditionValue) -> FilterCondition {
    FilterCondition { field_key: key, match_type: FWP_MATCH_EQUAL, value }
}

/// The condition on a port, if one is set.
pub open spec fn port_conditions(key: Guid, port: Option<u16>) -> Seq<FilterCondition> {
    match port {
        Some(p) => seq![cond(key, ConditionValue::Uint16(p))],
        None => Seq::empty(),
    }
}

/// The condition on the protocol, if one is set.
pub open spec fn protocol_conditions(protocol: Option<Protocol>) -> Seq<FilterCondition> {
    match protocol {
        Some(p) => seq![cond(CONDITION_IP_PROTOCOL, ConditionValue::Uint8(protocol_number(p)))],
        None => Seq::empty(),
    }
}

/// The condition on an address, if one is set and is an IPv4 address.
pub open spec fn v4_conditions(key: Guid, ip: Option<IpAddrMask>) -> Seq<FilterCondition> {
    match ip {
        Some(m) => match m.addr {
            IpAddr::V4(a) => seq![
                cond(key, ConditionValue::V4AddrMask { v4_addr: a, mask: v4_mask(m.prefix_len) }),
            ],
            IpAddr::V6(_) => Seq::empty(),
        },
        None => Seq::empty(),
    }
}

/// The condition on an address, if one is set and is an IPv6 address.
pub open spec fn v6_conditions(key: Guid, ip: Option<IpAddrMask>) -> Seq<FilterCondition> {
    match ip {
        Some(m) => match m.addr {
            IpAddr::V6(a) => seq![
                cond(key, ConditionValue::V6AddrMask { v6_addr: a, prefix_length: m.prefix_len }),
            ],
            IpAddr::V4(_) => Seq::empty(),
        },
        None => Seq::empty(),
    }
}

/// The condition on a field that is set (`present`), whose value is made when
/// the filter is added.
pub open spec fn identity_conditions(present: bool, key: Guid, value: ConditionValue) -> Seq<
    FilterCondition,
> {
    if present {
        seq![cond(key, value)]
    } else {
        Seq::empty()
    }
}

/// The conditions of the filter for a rule, in order: application, service,
/// AppContainer, remote port, local port, protocol, remote address, local
/// address.
pub open spec fn rule_conditions(rule: FilterRule) -> Seq<FilterCondition> {
    identity_conditions(rule.app_path is Some, CONDITION_ALE_APP_ID, ConditionValue::AppId)
        + identity_conditions(
        rule.service_name is Some,
        CONDITION_ALE_USER_ID,
        ConditionValue::ServiceSid,
    ) + identity_conditions(
        rule.app_container_sid is Some,
        CONDITION_ALE_PACKAGE_ID,
        ConditionValue::PackageSid,
    ) + port_conditions(CONDITION_IP_REMOTE_PORT, rule.remote_port) + port_conditions(
        CONDITION_IP_LOCAL_PORT,
        rule.local_port,
    ) + protocol_conditions(rule.protocol) + v4_conditions(
        CONDITION_IP_REMOTE_ADDRESS,
        rule.remote_ip,
    ) + v6_conditions(CONDITION_IP_REMOTE_ADDRESS, rule.remote_ip) + v4_conditions(
        CONDITION_IP_LOCAL_ADDRESS,
        rule.local_ip,
    ) + v6_conditions(CONDITION_IP_LOCAL_ADDRESS, rule.local_ip)
}

/// Whether a rule's filter goes to an IPv6 layer: its remote address decides,
/// else its local address; a rule with neither is IPv4.
pub open spec fn rule_is_ipv6(rule: FilterRule) -> bool {
    match rule.remote_ip {
        Some(m) => m.addr is V6,
        None => match rule.local_ip {
            Some(m) => m.addr is V6,
            None => false,
        },
    }
}

/// Whether a rule sets any field that becomes a filter condition.
pub open spec fn rule_has_conditions(rule: FilterRule) -> bool {
    ||| rule.app_path is Some
    ||| rule.service_name is Some
    ||| rule.app_container_sid is Some
    ||| rule.remote_port is Some
    ||| rule.local_port is Some
    ||| rule.protocol is Some
    ||| rule.remote_ip is Some
    ||| rule.local_ip is Some
}

/// The WFP filter to add for a rule.
#[derive(Debug)]
pub struct FilterTemplate {
    /// The filter's display name
    pub name: String,
    /// The provider that owns the filter
    pub provider_key: Guid,
    /// The layer the filter is added to
    pub layer_key: Guid,
    /// The sublayer the filter is added to
    pub sublayer_key: Guid,
    /// The filter's weight
    pub weight: u64,
    /// The WFP action type
    pub action_type: u32,
    /// The application path to turn into the application id, if the rule has one
    pub app_path: Option<String>,
    /// The service name whose SID the filter is restricted to, if the rule has one
    pub service_name: Option<String>,
    /// The AppContainer SID string the filter is restricted to, if the rule has one
    pub app_container_sid: Option<String>,
    /// The filter's conditions
    pub conditions: Vec<FilterCondition>,
}

/// WFP filter builder: translates filter rules and decides the outcome of
/// adding and deleting filters.
pub struct FilterBuilder;

impl FilterBuilder {
    /// Translate Action to WFP action type.
    pub fn translate_action(action: Action) -> (r: u32)
        ensures
            r == action_type(action),
    {
        match action {
            Action::Permit => FWP_ACTION_PERMIT,
            Action::Block => FWP_ACTION_BLOCK,
        }
    }

    /// Translate Protocol to IP protocol number.
    pub fn translate_protocol(protocol: Protocol) -> (r: u8)
        ensures
            r == protocol_number(protocol),
    {
        protocol.as_u8()
    }

    /// Convert a CIDR prefix length to an IPv4 netmask (24 gives 0xFFFFFF00);
    /// lengths above 32 give all ones.
    pub fn prefix_to_v4_mask(prefix_len: u8) -> (r: u32)
        ensures
            r == v4_mask(prefix_len),
    {
        if prefix_len == 0 {
            proof {
                lemma2_to64();
            }
            0
        } else if prefix_len >= 32 {
            0xFFFFFFFF
        } else {
            let s: u32 = 32 - prefix_len as u32;
            let r = u32::MAX << s;
            proof {
                assert(0xffffffffu32 << s == !(((1u32 << s) - 1) as u32)) by (bit_vector)
                    requires
                        1 <= s < 32,
                ;
                lemma2_to64();
                vstd::arithmetic::power2::lemma_pow2_strictly_increases(s as nat, 32);
                lemma_u32_shl_is_mul(1, s);
                let y: u32 = ((1u32 << s) - 1) as u32;
                assert(!y == (0xffffffffu32 - y) as u32) by (bit_vector);
            }
            r
        }
    }

    /// Whether a rule's filter goes to an IPv6 layer.
    pub fn is_ipv6_rule(rule: &FilterRule) -> (r: bool)
        ensures
            r == rule_is_ipv6(*rule),
    {
        match &rule.remote_ip {
            Some(m) => m.is_ipv6(),
            None => match &rule.local_ip {
                Some(m) => m.is_ipv6(),
                None => false,
            },
        }
    }

    fn push_address_conditions(c: &mut Vec<FilterCondition>, key: Guid, ip: Option<IpAddrMask>)
        ensures
            final(c)@ == old(c)@ + v4_conditions(key, ip) + v6_conditions(key, ip),
    {
        match ip {
            Some(m) => match m.addr {
                IpAddr::V4(a) => {
                    c.push(
                        FilterCondition {
                            field_key: key,
                            match_type: FWP_MATCH_EQUAL,
                            value: ConditionValue::V4AddrMask {
                                v4_addr: a,
                                mask: Self::prefix_to_v4_mask(m.prefix_len),
                            },
                        },
                    );
                },
                IpAddr::V6(a) => {
                    c.push(
                        FilterCondition {
                            field_key: key,
                            match_type: FWP_MATCH_EQUAL,
                            value: ConditionValue::V6AddrMask { v6_addr: a, prefix_length: m.prefix_len },
                        },
                    );
                },
            },
            None => {},
        }
        assert(c@ =~= old(c)@ + v4_conditions(key, ip) + v6_conditions(key, ip));
    }

    /// The conditions of the filter for a rule.
    pub fn build_conditions(rule: &FilterRule) -> (r: Vec<FilterCondition>)
        ensures
            r@ == rule_conditions(*rule),
    {
        let mut c: Vec<FilterCondition> = Vec::new();
        if rule.app_path.is_some() {
            c.push(
                FilterCondition {
                    field_key: CONDITION_ALE_APP_ID,
                    match_type: FWP_MATCH_EQUAL,
                    value: ConditionValue::AppId,
                },
            );
        }
        let ghost c0 = c@;
        if rule.service_name.is_some() {
            c.push(
                FilterCondition {
                    field_key: CONDITION_ALE_USER_ID,
                    match_type: FWP_MATCH_EQUAL,
                    value: ConditionValue::ServiceSid,
                },
            );
        }
        if rule.app_container_sid.is_some() {
            c.push(
                FilterCondition {
                    field_key: CONDITION_ALE_PACKAGE_ID,
                    match_type: FWP_MATCH_EQUAL,
                    value: ConditionValue::PackageSid,
                },
            );
        }
        assert(c@ =~= c0 + identity_conditions(
            rule.service_name is Some,
            CONDITION_ALE_USER_ID,
            ConditionValue::ServiceSid,
        ) + identity_conditions(
            rule.app_container_sid is Some,
            CONDITION_ALE_PACKAGE_ID,
            ConditionValue::PackageSid,
        ));
        let ghost c1 = c@;
        match rule.remote_port {
            Some(p) => c.push(
                FilterCondition {
                    field_key: CONDITION_IP_REMOTE_PORT,
                    match_type: FWP_MATCH_EQUAL,
                    value: ConditionValue::Uint16(p),
                },
            ),
            None => {},
        }
        assert(c@ =~= c1 + port_conditions(CONDITION_IP_REMOTE_PORT, rule.remote_port));
        let ghost c2 = c@;
        match rule.local_port {
            Some(p) => c.push(
                FilterCondition {
                    field_key: CONDITION_IP_LOCAL_PORT,
                    match_type: FWP_MATCH_EQUAL,
                    value: ConditionValue::Uint16(p),
                },
            ),
            None => {},
        }
        assert(c@ =~= c2 + port_conditions(CONDITION_IP_LOCAL_PORT, rule.local_port));
        let ghost c3 = c@;
        match rule.protocol {
            Some(p) => c.push(
                FilterCondition {
                    field_key: CONDITION_IP_PROTOCOL,
                    match_type: FWP_MATCH_EQUAL,
                    value: ConditionValue::Uint8(Self::translate_protocol(p)),
                },
            ),
            None => {},
        }
        assert(c@ =~= c3 + protocol_conditions(rule.protocol));
        Self::push_address_conditions(&mut c, CONDITION_IP_REMOTE_ADDRESS, rule.remote_ip);
        Self::push_address_conditions(&mut c, CONDITION_IP_LOCAL_ADDRESS, rule.local_ip);
        assert(c@ =~= rule_conditions(*rule));
        c
    }

    /// The WFP filter to add for a rule: owned by the TRusTY Wall provider, in
    /// its sublayer, in the layer of the rule's direction and IP version, with
    /// the rule's name, weight, action and conditions.
    pub fn translate(rule: &FilterRule) -> (r: FilterTemplate)
        ensures
            r.name == rule.name,
            r.provider_key == TRUSTY_PROVIDER_GUID,
            r.sublayer_key == TRUSTY_SUBLAYER_GUID,
            r.layer_key == layer_for(rule.direction, rule_is_ipv6(*rule)),
            r.weight == rule.weight,
            r.action_type == action_type(rule.action),
            r.app_path == rule.app_path,
            r.service_name == rule.service_name,
            r.app_container_sid == rule.app_container_sid,
            r.conditions@ == rule_conditions(*rule),
    {
        let is_ipv6 = Self::is_ipv6_rule(rule);
        FilterTemplate {
            name: rule.name.clone(),
            provider_key: TRUSTY_PROVIDER_GUID,
            layer_key: select_layer(rule.direction, is_ipv6),
            sublayer_key: TRUSTY_SUBLAYER_GUID,
            weight: rule.weight,
            action_type: Self::translate_action(rule.action),
            app_path: rule.app_path.clone(),
            service_name: rule.service_name.clone(),
            app_container_sid: rule.app_container_sid.clone(),
            conditions: Self::build_conditions(rule),
        }
    }

    /// The outcome of turning a rule's application path into a WFP
    /// application id, given the result code of that call.
    pub fn app_id_outcome(path: &str, code: u32) -> (r: WfpResult<()>)
        ensures
            r is Ok <==> code == 0,
            r matches Err(e) ==> e matches WfpError::AppPathNotFound(p) && p@ == path@,
    {
        if code != 0 {
            return Err(WfpError::AppPathNotFound(String::from_str(path)));
        }
        Ok(())
    }

    /// The account whose SID is a service's SID: `NT SERVICE\` and the service name.
    pub fn service_account_name(name: &str) -> (r: String)
        ensures
            r@ == "NT SERVICE\\"@ + name@,
    {
        let mut r = String::from_str("NT SERVICE\\");
        r.append(name);
        r
    }

    /// The security descriptor (SDDL) that the service condition compares
    /// with: a DACL with one ACE allowing the given SID (as a SID string).
    pub fn service_sddl(sid: &str) -> (r: String)
        ensures
            r@ == "D:(A;;CC;;;"@ + sid@ + ")"@,
    {
        let mut r = String::from_str("D:(A;;CC;;;");
        r.append(sid);
        r.append(")");
        r
    }

    /// The outcome of making the SID of a rule's service, given the result
    /// code of that step; the filter is not added without it.
    pub fn service_sid_outcome(name: &str, code: u32) -> (r: WfpResult<()>)
        ensures
            r is Ok <==> code == 0,
            r matches Err(e) ==> (e matches WfpError::Other(m) && m@ == "Failed to resolve service '"@
                + name@ + "': error code "@ + decimal(code as nat)),
    {
        if code != 0 {
            let mut m = String::from_str("Failed to resolve service '");
            m.append(name);
            m.append("': error code ");
            push_decimal(&mut m, code as u64);
            return Err(WfpError::Other(m));
        }
        Ok(())
    }

    /// The outcome of reading a rule's AppContainer SID string, given the
    /// result code of that step; the filter is not added without it.
    pub fn app_container_sid_outcome(sid: &str, code: u32) -> (r: WfpResult<()>)
        ensures
            r is Ok <==> code == 0,
            r matches Err(e) ==> (e matches WfpError::Other(m) && m@ == "Invalid AppContainer SID '"@
                + sid@ + "': error code "@ + decimal(code as nat)),
    {
        if code != 0 {
            let mut m = String::from_str("Invalid AppContainer SID '");
            m.append(sid);
            m.append("': error code ");
            push_decimal(&mut m, code as u64);
            return Err(WfpError::Other(m));
        }
        Ok(())
    }

    /// The outcome of adding a filter, given the result code of the call and
    /// the id it reported.
    pub fn add_outcome(name: &str, code: u32, filter_id: u64) -> (r: WfpResult<u64>)
        ensures
            match r {
                Ok(id) => code == 0 && id == filter_id,
                Err(e) => code != 0 && (e matches WfpError::FilterAddFailed(m) && m@
                    == "Failed to add filter '"@ + name@ + "': error code "@ + decimal(code as nat)),
            },
    {
        if code != 0 {
            let mut m = String::from_str("Failed to add filter '");
            m.append(name);
            m.append("': error code ");
            push_decimal(&mut m, code as u64);
            return Err(WfpError::FilterAddFailed(m));
        }
        Ok(filter_id)
    }

    /// The outcome of deleting a filter, given the result code of the call.
    pub fn delete_outcome(filter_id: u64, code: u32) -> (r: WfpResult<()>)
        ensures
            match r {
                Ok(_) => code == 0,
                Err(e) => code != 0 && (e matches WfpError::FilterDeleteFailed(m) && m@
                    == "Failed to delete filter ID "@ + decimal(filter_id as nat) + ": error code "@
                    + decimal(code as nat)),
            },
    {
        if code != 0 {
            let mut m = String::from_str("Failed to delete filter ID ");
            push_decimal(&mut m, filter_id);
            m.append(": error code ");
            push_decimal(&mut m, code as u64);
            return Err(WfpError::FilterDeleteFailed(m));
        }
        Ok(())
    }
}

/// The address conditions of a rule's filter are built from the rule's own
/// addresses and prefix lengths: the local address, when set, is the filter's
/// last condition, and the remote address, when set, comes just before it (or
/// is last when no local address is set). An IPv4 address is compared with
/// the netmask of its prefix length, an IPv6 address with its prefix length.
pub proof fn lemma_address_conditions(rule: FilterRule)
    ensures
        rule.local_ip matches Some(m) ==> rule_conditions(rule).len() >= 1 && rule_conditions(
            rule,
        ).last() == (FilterCondition {
            field_key: CONDITION_IP_LOCAL_ADDRESS,
            match_type: FWP_MATCH_EQUAL,
            value: match m.addr {
                IpAddr::V4(a) => ConditionValue::V4AddrMask { v4_addr: a, mask: v4_mask(m.prefix_len) },
                IpAddr::V6(a) => ConditionValue::V6AddrMask { v6_addr: a, prefix_length: m.prefix_len },
            },
        }),
        rule.remote_ip matches Some(m) ==> ({
            let k: int = if rule.local_ip is Some { 2 } else { 1 };
            &&& rule_conditions(rule).len() >= k
            &&& rule_conditions(rule)[rule_conditions(rule).len() - k] == (FilterCondition {
                field_key: CONDITION_IP_REMOTE_ADDRESS,
                match_type: FWP_MATCH_EQUAL,
                value: match m.addr {
                    IpAddr::V4(a) => ConditionValue::V4AddrMask {
                        v4_addr: a,
                        mask: v4_mask(m.prefix_len),
                    },
                    IpAddr::V6(a) => ConditionValue::V6AddrMask {
                        v6_addr: a,
                        prefix_length: m.prefix_len,
                    },
                },
            })
        }),
{
    let front = identity_conditions(rule.app_path is Some, CONDITION_ALE_APP_ID, ConditionValue::AppId)
        + identity_conditions(
        rule.service_name is Some,
        CONDITION_ALE_USER_ID,
        ConditionValue::ServiceSid,
    ) + identity_conditions(
        rule.app_container_sid is Some,
        CONDITION_ALE_PACKAGE_ID,
        ConditionValue::PackageSid,
    ) + port_conditions(CONDITION_IP_REMOTE_PORT, rule.remote_port) + port_conditions(
        CONDITION_IP_LOCAL_PORT,
        rule.local_port,
    ) + protocol_conditions(rule.protocol);
    let remote = v4_conditions(CONDITION_IP_REMOTE_ADDRESS, rule.remote_ip) + v6_conditions(
        CONDITION_IP_REMOTE_ADDRESS,
        rule.remote_ip,
    );
    let local = v4_conditions(CONDITION_IP_LOCAL_ADDRESS, rule.local_ip) + v6_conditions(
        CONDITION_IP_LOCAL_ADDRESS,
        rule.local_ip,
    );
    let all = rule_conditions(rule);
    assert(all =~= front + remote + local);
    assert(rule.local_ip is None ==> local.len() == 0);
    assert(rule.local_ip is Some ==> local.len() == 1);
    assert(rule.remote_ip is Some ==> remote.len() == 1);
    if rule.local_ip is Some {
        assert(all.last() == local[0]);
    }
    if rule.remote_ip is Some {
        let k: int = if rule.local_ip is Some { 2 } else { 1 };
        assert(all[all.len() - k] == remote[0]);
    }
}

/// Membership in a concatenation is membership in either part.
proof fn lemma_concat_contains(x: Seq<FilterCondition>, y: Seq<FilterCondition>, c: FilterCondition)
    ensures
        (x + y).contains(c) == (x.contains(c) || y.contains(c)),
{
    if x.contains(c) {
        let i = choose|i: int| 0 <= i < x.len() && x[i] == c;
        assert((x + y)[i] == c);
    }
    if y.contains(c) {
        let j = choose|j: int| 0 <= j < y.len() && y[j] == c;
        assert((x + y)[x.len() + j] == c);
    }
    if (x + y).contains(c) {
        let i = choose|i: int| 0 <= i < (x + y).len() && (x + y)[i] == c;
        if i < x.len() {
            assert(x[i] == c);
        } else {
            assert(y[i - x.len()] == c);
        }
    }
}

/// A condition is among a rule's conditions exactly when one of the parts
/// that make them holds it.
proof fn lemma_rule_conditions_contains(rule: FilterRule, c: FilterCondition)
    ensures
        rule_conditions(rule).contains(c) == (identity_conditions(
            rule.app_path is Some,
            CONDITION_ALE_APP_ID,
            ConditionValue::AppId,
        ).contains(c) || identity_conditions(
            rule.service_name is Some,
            CONDITION_ALE_USER_ID,
            ConditionValue::ServiceSid,
        ).contains(c) || identity_conditions(
            rule.app_container_sid is Some,
            CONDITION_ALE_PACKAGE_ID,
            ConditionValue::PackageSid,
        ).contains(c) || port_conditions(CONDITION_IP_REMOTE_PORT, rule.remote_port).contains(c)
            || port_conditions(CONDITION_IP_LOCAL_PORT, rule.local_port).contains(c)
            || protocol_conditions(rule.protocol).contains(c) || v4_conditions(
            CONDITION_IP_REMOTE_ADDRESS,
            rule.remote_ip,
        ).contains(c) || v6_conditions(CONDITION_IP_REMOTE_ADDRESS, rule.remote_ip).contains(c)
            || v4_conditions(CONDITION_IP_LOCAL_ADDRESS, rule.local_ip).contains(c)
            || v6_conditions(CONDITION_IP_LOCAL_ADDRESS, rule.local_ip).contains(c)),
{
    let p0 = identity_conditions(rule.app_path is Some, CONDITION_ALE_APP_ID, ConditionValue::AppId);
    let p1 = identity_conditions(
        rule.service_name is Some,
        CONDITION_ALE_USER_ID,
        ConditionValue::ServiceSid,
    );
    let p2 = identity_conditions(
        rule.app_container_sid is Some,
        CONDITION_ALE_PACKAGE_ID,
        ConditionValue::PackageSid,
    );
    let p3 = port_conditions(CONDITION_IP_REMOTE_PORT, rule.remote_port);
    let p4 = port_conditions(CONDITION_IP_LOCAL_PORT, rule.local_port);
    let p5 = protocol_conditions(rule.protocol);
    let p6 = v4_conditions(CONDITION_IP_REMOTE_ADDRESS, rule.remote_ip);
    let p7 = v6_conditions(CONDITION_IP_REMOTE_ADDRESS, rule.remote_ip);
    let p8 = v4_conditions(CONDITION_IP_LOCAL_ADDRESS, rule.local_ip);
    let p9 = v6_conditions(CONDITION_IP_LOCAL_ADDRESS, rule.local_ip);
    lemma_concat_contains(p0, p1, c);
    lemma_concat_contains(p0 + p1, p2, c);
    lemma_concat_contains(p0 + p1 + p2, p3, c);
    lemma_concat_contains(p0 + p1 + p2 + p3, p4, c);
    lemma_concat_contains(p0 + p1 + p2 + p3 + p4, p5, c);
    lemma_concat_contains(p0 + p1 + p2 + p3 + p4 + p5, p6, c);
    lemma_concat_contains(p0 + p1 + p2 + p3 + p4 + p5 + p6, p7, c);
    lemma_concat_contains(p0 + p1 + p2 + p3 + p4 + p5 + p6 + p7, p8, c);
    lemma_concat_contains(p0 + p1 + p2 + p3 + p4 + p5 + p6 + p7 + p8, p9, c);
    assert(rule_conditions(rule) =~= p0 + p1 + p2 + p3 + p4 + p5 + p6 + p7 + p8 + p9);
}

/// Every field a rule sets yields its equality condition, with the rule's own
/// value: the application id, the service, the AppContainer, the remote and
/// local ports, and the protocol by its IP protocol number; and a rule's
/// filter holds no condition on a field the rule leaves unset.
pub proof fn lemma_field_conditions(rule: FilterRule)
    ensures
        rule.app_path is Some <==> rule_conditions(rule).contains(
            FilterCondition {
                field_key: CONDITION_ALE_APP_ID,
                match_type: FWP_MATCH_EQUAL,
                value: ConditionValue::AppId,
            },
        ),
        rule.service_name is Some <==> rule_conditions(rule).contains(
            FilterCondition {
                field_key: CONDITION_ALE_USER_ID,
                match_type: FWP_MATCH_EQUAL,
                value: ConditionValue::ServiceSid,
            },
        ),
        rule.app_container_sid is Some <==> rule_conditions(rule).contains(
            FilterCondition {
                field_key: CONDITION_ALE_PACKAGE_ID,
                match_type: FWP_MATCH_EQUAL,
                value: ConditionValue::PackageSid,
            },
        ),
        forall|p: u16|
            rule.remote_port == Some(p) <==> #[trigger] rule_conditions(rule).contains(
                FilterCondition {
                    field_key: CONDITION_IP_REMOTE_PORT,
                    match_type: FWP_MATCH_EQUAL,
                    value: ConditionValue::Uint16(p),
                },
            ),
        forall|p: u16|
            rule.local_port == Some(p) <==> #[trigger] rule_conditions(rule).contains(
                FilterCondition {
                    field_key: CONDITION_IP_LOCAL_PORT,
                    match_type: FWP_MATCH_EQUAL,
                    value: ConditionValue::Uint16(p),
                },
            ),
        forall|n: u8|
            (rule.protocol matches Some(pr) && protocol_number(pr) == n) <==> #[trigger] rule_conditions(
                rule,
            ).contains(
                FilterCondition {
                    field_key: CONDITION_IP_PROTOCOL,
                    match_type: FWP_MATCH_EQUAL,
                    value: ConditionValue::Uint8(n),
                },
            ),
        forall|c: FilterCondition|
            #[trigger] rule_conditions(rule).contains(c) ==> (c.field_key
                == CONDITION_IP_REMOTE_ADDRESS ==> rule.remote_ip is Some) && (c.field_key
                == CONDITION_IP_LOCAL_ADDRESS ==> rule.local_ip is Some) && (c.field_key
                == CONDITION_IP_PROTOCOL ==> rule.protocol is Some),
{
    let ca = FilterCondition {
        field_key: CONDITION_ALE_APP_ID,
        match_type: FWP_MATCH_EQUAL,
        value: ConditionValue::AppId,
    };
    let cs = FilterCondition {
        field_key: CONDITION_ALE_USER_ID,
        match_type: FWP_MATCH_EQUAL,
        value: ConditionValue::ServiceSid,
    };
    let cp = FilterCondition {
        field_key: CONDITION_ALE_PACKAGE_ID,
        match_type: FWP_MATCH_EQUAL,
        value: ConditionValue::PackageSid,
    };
    lemma_rule_conditions_contains(rule, ca);
    lemma_rule_conditions_contains(rule, cs);
    lemma_rule_conditions_contains(rule, cp);
    assert(rule.app_path is Some ==> seq![ca].contains(ca) && seq![ca][0] == ca);
    assert(rule.service_name is Some ==> seq![cs][0] == cs);
    assert(rule.app_container_sid is Some ==> seq![cp][0] == cp);
    assert forall|p: u16|
        rule.remote_port == Some(p) <==> #[trigger] rule_conditions(rule).contains(
            FilterCondition {
                field_key: CONDITION_IP_REMOTE_PORT,
                match_type: FWP_MATCH_EQUAL,
                value: ConditionValue::Uint16(p),
            },
        ) by {
        let c = FilterCondition {
            field_key: CONDITION_IP_REMOTE_PORT,
            match_type: FWP_MATCH_EQUAL,
            value: ConditionValue::Uint16(p),
        };
        lemma_rule_conditions_contains(rule, c);
        if rule.remote_port == Some(p) {
            assert(seq![c][0] == c);
        }
    }
    assert forall|p: u16|
        rule.local_port == Some(p) <==> #[trigger] rule_conditions(rule).contains(
            FilterCondition {
                field_key: CONDITION_IP_LOCAL_PORT,
                match_type: FWP_MATCH_EQUAL,
                value: ConditionValue::Uint16(p),
            },
        ) by {
        let c = FilterCondition {
            field_key: CONDITION_IP_LOCAL_PORT,
            match_type: FWP_MATCH_EQUAL,
            value: ConditionValue::Uint16(p),
        };
        lemma_rule_conditions_contains(rule, c);
        if rule.local_port == Some(p) {
            assert(seq![c][0] == c);
        }
    }
    assert forall|n: u8|
        (rule.protocol matches Some(pr) && protocol_number(pr) == n) <==> #[trigger] rule_conditions(
            rule,
        ).contains(
            FilterCondition {
                field_key: CONDITION_IP_PROTOCOL,
                match_type: FWP_MATCH_EQUAL,
                value: ConditionValue::Uint8(n),
            },
        ) by {
        let c = FilterCondition {
            field_key: CONDITION_IP_PROTOCOL,
            match_type: FWP_MATCH_EQUAL,
            value: ConditionValue::Uint8(n),
        };
        lemma_rule_conditions_contains(rule, c);
        if rule.protocol is Some && protocol_number(rule.protocol.unwrap()) == n {
            assert(seq![c][0] == c);
        }
    }
    assert forall|c: FilterCondition| #[trigger] rule_conditions(rule).contains(c) implies (
    c.field_key == CONDITION_IP_REMOTE_ADDRESS ==> rule.remote_ip is Some) && (c.field_key
        == CONDITION_IP_LOCAL_ADDRESS ==> rule.local_ip is Some) && (c.field_key
        == CONDITION_IP_PROTOCOL ==> rule.protocol is Some) by {
        lemma_rule_conditions_contains(rule, c);
    }
}

/// Which layer a rule's filter goes to: when the rule sets a remote address,
/// its IP version alone decides (whatever the local address); otherwise the
/// local address decides; a rule with neither goes to the IPv4 layer. So a
/// rule whose set addresses are all IPv6 goes to the IPv6 layer of its
/// direction, and one whose set addresses are all IPv4 to the IPv4 layer.
pub proof fn lemma_layer_by_address(rule: FilterRule)
    ensures
        rule.remote_ip matches Some(m) ==> rule_is_ipv6(rule) == (m.addr is V6),
        rule.remote_ip is None ==> (rule.local_ip matches Some(m) ==> rule_is_ipv6(rule) == (
        m.addr is V6)),
        rule.remote_ip is None && rule.local_ip is None ==> !rule_is_ipv6(rule),
        ((rule.remote_ip is Some || rule.local_ip is Some) && (rule.remote_ip matches Some(m)
            ==> m.addr is V6) && (rule.local_ip matches Some(m) ==> m.addr is V6)) ==> layer_for(
            rule.direction,
            rule_is_ipv6(rule),
        ) == layer_for(rule.direction, true),
        ((rule.remote_ip matches Some(m) ==> m.addr is V4) && (rule.local_ip matches Some(m)
            ==> m.addr is V4)) ==> layer_for(rule.direction, rule_is_ipv6(rule)) == layer_for(
            rule.direction,
            false,
        ),
{
}

/// A rule yields a filter without conditions (one that matches all traffic
/// of its layer) exactly when it sets none of the condition fields.
pub proof fn lemma_no_conditions_iff(rule: FilterRule)
    ensures
        rule_conditions(rule).len() == 0 <==> !rule_has_conditions(rule),
{
}

/// A rule with an application path always yields the application condition,
/// as the filter's first condition: the filter never matches all applications
/// in its place.
pub proof fn lemma_app_condition_first(rule: FilterRule)
    requires
        rule.app_path is Some,
    ensures
        rule_conditions(rule).len() >= 1,
        rule_conditions(rule)[0] == cond(CONDITION_ALE_APP_ID, ConditionValue::AppId),
{
}

/// Every condition of a rule's filter is an equality test, and no field is
/// tested twice.
pub proof fn lemma_conditions_well_formed(rule: FilterRule)
    ensures
        conditions_well_formed(rule_conditions(rule)),
{
    let s0 = Seq::<FilterCondition>::empty();
    let ks0 = Set::<Guid>::empty();
    let p0 = identity_conditions(rule.app_path is Some, CONDITION_ALE_APP_ID, ConditionValue::AppId);
    lemma_append_part(s0, ks0, p0, CONDITION_ALE_APP_ID);
    let s1 = s0 + p0;
    let ks1 = ks0.insert(CONDITION_ALE_APP_ID);
    let p1 = identity_conditions(rule.service_name is Some, CONDITION_ALE_USER_ID, ConditionValue::ServiceSid);
    lemma_append_part(s1, ks1, p1, CONDITION_ALE_USER_ID);
    let s2 = s1 + p1;
    let ks2 = ks1.insert(CONDITION_ALE_USER_ID);
    let p2 = identity_conditions(rule.app_container_sid is Some, CONDITION_ALE_PACKAGE_ID, ConditionValue::PackageSid);
    lemma_append_part(s2, ks2, p2, CONDITION_ALE_PACKAGE_ID);
    let s3 = s2 + p2;
    let ks3 = ks2.insert(CONDITION_ALE_PACKAGE_ID);
    let p3 = port_conditions(CONDITION_IP_REMOTE_PORT, rule.remote_port);
    lemma_append_part(s3, ks3, p3, CONDITION_IP_REMOTE_PORT);
    let s4 = s3 + p3;
    let ks4 = ks3.insert(CONDITION_IP_REMOTE_PORT);
    let p4 = port_conditions(CONDITION_IP_LOCAL_PORT, rule.local_port);
    lemma_append_part(s4, ks4, p4, CONDITION_IP_LOCAL_PORT);
    let s5 = s4 + p4;
    let ks5 = ks4.insert(CONDITION_IP_LOCAL_PORT);
    let p5 = protocol_conditions(rule.protocol);
    lemma_append_part(s5, ks5, p5, CONDITION_IP_PROTOCOL);
    let s6 = s5 + p5;
    let ks6 = ks5.insert(CONDITION_IP_PROTOCOL);
    let p6 = v4_conditions(CONDITION_IP_REMOTE_ADDRESS, rule.remote_ip) + v6_conditions(CONDITION_IP_REMOTE_ADDRESS, rule.remote_ip);
    lemma_append_part(s6, ks6, p6, CONDITION_IP_REMOTE_ADDRESS);
    let s7 = s6 + p6;
    let ks7 = ks6.insert(CONDITION_IP_REMOTE_ADDRESS);
    let p7 = v4_conditions(CONDITION_IP_LOCAL_ADDRESS, rule.local_ip) + v6_conditions(CONDITION_IP_LOCAL_ADDRESS, rule.local_ip);
    lemma_append_part(s7, ks7, p7, CONDITION_IP_LOCAL_ADDRESS);
    let s8 = s7 + p7;
    let ks8 = ks7.insert(CONDITION_IP_LOCAL_ADDRESS);
    assert(rule_conditions(rule) =~= s8);
}

/// Conditions that are all equality tests, no two on the same field.
pub open spec fn conditions_well_formed(c: Seq<FilterCondition>) -> bool {
    &&& forall|i: int| 0 <= i < c.len() ==> (#[trigger] c[i]).match_type == FWP_MATCH_EQUAL
    &&& forall|i: int, j: int|
        0 <= i < j < c.len() ==> (#[trigger] c[i]).field_key != (#[trigger] c[j]).field_key
}

/// Each condition tests one of the fields in `keys`.
spec fn fields_within(c: Seq<FilterCondition>, keys: Set<Guid>) -> bool {
    forall|i: int| 0 <= i < c.len() ==> keys.contains(#[trigger] c[i].field_key)
}

/// At most one condition, an equality test on `key`.
spec fn one_test_on(c: Seq<FilterCondition>, key: Guid) -> bool {
    &&& c.len() <= 1
    &&& forall|m: int|
        0 <= m < c.len() ==> (#[trigger] c[m]).field_key == key && c[m].match_type
            == FWP_MATCH_EQUAL
}

proof fn lemma_append_part(x: Seq<FilterCondition>, keys: Set<Guid>, y: Seq<FilterCondition>, key: Guid)
    requires
        conditions_well_formed(x),
        fields_within(x, keys),
        !keys.contains(key),
        one_test_on(y, key),
    ensures
        conditions_well_formed(x + y),
        fields_within(x + y, keys.insert(key)),
{
    let z = x + y;
    assert forall|i: int| 0 <= i < z.len() implies (#[trigger] z[i]).match_type == FWP_MATCH_EQUAL
        && keys.insert(key).contains(z[i].field_key) by {
        if i >= x.len() {
            assert(z[i] == y[i - x.len()]);
        } else {
            assert(z[i] == x[i]);
        }
    }
    assert forall|i: int, j: int| 0 <= i < j < z.len() implies (#[trigger] z[i]).field_key != (
    #[trigger] z[j]).field_key by {
        if j >= x.len() {
            assert(z[j] == y[j - x.len()]);
            assert(z[i] == x[i]);
            assert(keys.contains(x[i].field_key));
        } else {
            assert(z[j] == x[j]);
            assert(z[i] == x[i]);
        }
    }
}

} // verus!
