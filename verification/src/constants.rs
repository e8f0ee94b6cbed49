//! GUIDs and WFP constant values.
//!
//! A GUID is held as the 128-bit number whose hexadecimal digits are the
//! GUID's digits in their written order (`{12345678-1234-...}` is
//! `0x12345678_1234_...`).

use vstd::prelude::*;

verus! {

/// A GUID as a 128-bit value.
pub type Guid = u128;

/// TRusTY Wall WFP Provider GUID
///
/// Uniquely identifies this firewall application in WFP.
pub const TRUSTY_PROVIDER_GUID: Guid = 0x12345678_1234_5678_1234_567812345678u128;

/// TRusTY Wall WFP Sublayer GUID
///
/// All TRusTY Wall filters are added to this sublayer.
pub const TRUSTY_SUBLAYER_GUID: Guid = 0x87654321_4321_8765_4321_876543218765u128;

/// WFP Layer: FWPM_LAYER_ALE_AUTH_CONNECT_V4
///
/// Application Layer Enforcement (ALE) for IPv4 outbound connections.
pub const LAYER_ALE_AUTH_CONNECT_V4: Guid = 0xc38d57d1_05a7_4c33_904f_7fbceee60e82u128;

/// WFP Layer: FWPM_LAYER_ALE_AUTH_CONNECT_V6
///
/// Application Layer Enforcement (ALE) for IPv6 outbound connections.
pub const LAYER_ALE_AUTH_CONNECT_V6: Guid = 0x4a72393b_319f_44bc_84c3_ba54dcb3b6b4u128;

/// WFP Layer: FWPM_LAYER_ALE_AUTH_RECV_ACCEPT_V4
///
/// Application Layer Enforcement (ALE) for IPv4 inbound connections.
pub const LAYER_ALE_AUTH_RECV_ACCEPT_V4: Guid = 0xe1cd9fe7_f4b5_4273_96c0_592e487b8650u128;

/// WFP Layer: FWPM_LAYER_ALE_AUTH_RECV_ACCEPT_V6
///
/// Application Layer Enforcement (ALE) for IPv6 inbound connections.
pub const LAYER_ALE_AUTH_RECV_ACCEPT_V6: Guid = 0xa3b42c97_9f04_4672_b87e_cee9c483257fu128;

/// WFP Condition: FWPM_CONDITION_ALE_APP_ID
///
/// Filter condition for application path.
pub const CONDITION_ALE_APP_ID: Guid = 0xd78e1e87_8644_4ea5_9437_d809ecefc971u128;

/// WFP Condition: FWPM_CONDITION_ALE_USER_ID
///
/// Filter condition on the identity the traffic runs under; used with a
/// security descriptor that grants access to a service's SID.
pub const CONDITION_ALE_USER_ID: Guid = 0xaf043a0a_b34d_4f86_979c_c90371af6e66u128;

/// WFP Condition: FWPM_CONDITION_ALE_PACKAGE_ID
///
/// Filter condition on the AppContainer (package) SID of the application.
pub const CONDITION_ALE_PACKAGE_ID: Guid = 0x71bc78fa_f17c_4997_a602_6abb261f351cu128;

/// WFP Condition: FWPM_CONDITION_IP_REMOTE_ADDRESS
///
/// Filter condition for remote IP address.
pub const CONDITION_IP_REMOTE_ADDRESS: Guid = 0xb235ae9a_1d64_49b8_a44c_5ff3d9095045u128;

/// WFP Condition: FWPM_CONDITION_IP_LOCAL_ADDRESS
///
/// Filter condition for local IP address.
pub const CONDITION_IP_LOCAL_ADDRESS: Guid = 0xd9ee00de_c1ef_4617_bfe3_ffd8f5a08957u128;

/// WFP Condition: FWPM_CONDITION_IP_REMOTE_PORT
///
/// Filter condition for remote port.
pub const CONDITION_IP_REMOTE_PORT: Guid = 0xc35a604d_d22b_4e1a_91b4_68f674ee674bu128;

/// WFP Condition: FWPM_CONDITION_IP_LOCAL_PORT
///
/// Filter condition for local port.
pub const CONDITION_IP_LOCAL_PORT: Guid = 0x0c1ba1af_5765_453f_af22_a8f791ac775bu128;

/// WFP Condition: FWPM_CONDITION_IP_PROTOCOL
///
/// Filter condition for IP protocol (TCP, UDP, ICMP).
pub const CONDITION_IP_PROTOCOL: Guid = 0x3971ef2b_623e_4f9a_8cb1_6e79b806b9a7u128;

/// `FWP_ACTION_BLOCK`: block the traffic (terminating).
pub const FWP_ACTION_BLOCK: u32 = 0x1001u32;

/// `FWP_ACTION_PERMIT`: permit the traffic (terminating).
pub const FWP_ACTION_PERMIT: u32 = 0x1002u32;

/// `FWP_ACTION_CALLOUT_TERMINATING`: a callout that decides.
pub const FWP_ACTION_CALLOUT_TERMINATING: u32 = 0x5003u32;

/// `FWP_ACTION_CALLOUT_INSPECTION`: a callout that only inspects.
pub const FWP_ACTION_CALLOUT_INSPECTION: u32 = 0x6004u32;

/// `FWP_ACTION_CALLOUT_UNKNOWN`: a callout that may or may not decide.
pub const FWP_ACTION_CALLOUT_UNKNOWN: u32 = 0x4005u32;

/// `FWP_EMPTY`: a value with no data.
pub const FWP_EMPTY: i32 = 0i32;

/// `FWP_UINT8`: an 8-bit unsigned value.
pub const FWP_UINT8: i32 = 1i32;

/// `FWP_UINT16`: a 16-bit unsigned value.
pub const FWP_UINT16: i32 = 2i32;

/// `FWP_UINT32`: a 32-bit unsigned value.
pub const FWP_UINT32: i32 = 3i32;

/// `FWP_UINT64`: a 64-bit unsigned value (held through a pointer).
pub const FWP_UINT64: i32 = 4i32;

/// `FWP_BYTE_BLOB_TYPE`: a sized byte blob.
pub const FWP_BYTE_BLOB_TYPE: i32 = 12i32;

/// `FWP_SID`: a security identifier.
pub const FWP_SID: i32 = 13i32;

/// `FWP_SECURITY_DESCRIPTOR_TYPE`: a self-relative security descriptor (held as a byte blob).
pub const FWP_SECURITY_DESCRIPTOR_TYPE: i32 = 14i32;

/// `FWP_V4_ADDR_MASK`: an IPv4 address with a netmask.
pub const FWP_V4_ADDR_MASK: i32 = 256i32;

/// `FWP_V6_ADDR_MASK`: an IPv6 address with a prefix length.
pub const FWP_V6_ADDR_MASK: i32 = 257i32;

/// `FWP_MATCH_EQUAL`: the condition value must equal the field.
pub const FWP_MATCH_EQUAL: i32 = 0i32;

/// `FWPM_SESSION_FLAG_DYNAMIC`: objects added in the session vanish when it ends.
pub const FWPM_SESSION_FLAG_DYNAMIC: u32 = 1u32;

/// `FWPM_PROVIDER_FLAG_PERSISTENT`: the provider outlives the session and survives reboots.
pub const FWPM_PROVIDER_FLAG_PERSISTENT: u32 = 1u32;

/// `FWPM_SUBLAYER_FLAG_PERSISTENT`: the sublayer outlives the session and survives reboots.
pub const FWPM_SUBLAYER_FLAG_PERSISTENT: u32 = 1u32;

/// `ERROR_FWP_ALREADY_EXISTS`: the object being added already exists.
pub const ERROR_FWP_ALREADY_EXISTS: u32 = 0x80320009u32;

} // verus!
