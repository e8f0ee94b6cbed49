//! Verified core of a Windows Filtering Platform (WFP) firewall wrapper.
//!
//! The library holds everything that decides: how a filter rule is
//! translated into WFP filter conditions, which layer and weight it gets,
//! how IP addresses in CIDR notation are read and written, how WFP result
//! codes and raw records are turned into the library's values and errors,
//! and the order of the steps that register a provider and sublayer.

pub mod text;
pub mod errors;
pub mod ip_text;
pub mod ip_format;
pub mod ip_roundtrip;
pub mod condition;
pub mod constants;
pub mod layer;
pub mod filter;
pub mod filter_builder;
pub mod filter_enum;
pub mod events;
pub mod engine;
pub mod transaction;
pub mod provider;

pub use condition::{IpAddr, IpAddrMask, Protocol};
pub use constants::{
    Guid, CONDITION_ALE_APP_ID, CONDITION_ALE_PACKAGE_ID, CONDITION_ALE_USER_ID,
    CONDITION_IP_LOCAL_ADDRESS, CONDITION_IP_LOCAL_PORT,
    CONDITION_IP_PROTOCOL, CONDITION_IP_REMOTE_ADDRESS, CONDITION_IP_REMOTE_PORT,
    ERROR_FWP_ALREADY_EXISTS, FWPM_PROVIDER_FLAG_PERSISTENT, FWPM_SESSION_FLAG_DYNAMIC,
    FWPM_SUBLAYER_FLAG_PERSISTENT, FWP_ACTION_BLOCK,
    FWP_ACTION_CALLOUT_INSPECTION, FWP_ACTION_CALLOUT_TERMINATING, FWP_ACTION_CALLOUT_UNKNOWN,
    FWP_ACTION_PERMIT, FWP_BYTE_BLOB_TYPE, FWP_SECURITY_DESCRIPTOR_TYPE, FWP_SID, FWP_EMPTY, FWP_MATCH_EQUAL, FWP_UINT16, FWP_UINT32,
    FWP_UINT64, FWP_UINT8, FWP_V4_ADDR_MASK, FWP_V6_ADDR_MASK, LAYER_ALE_AUTH_CONNECT_V4,
    LAYER_ALE_AUTH_CONNECT_V6, LAYER_ALE_AUTH_RECV_ACCEPT_V4, LAYER_ALE_AUTH_RECV_ACCEPT_V6,
    TRUSTY_PROVIDER_GUID, TRUSTY_SUBLAYER_GUID,
};
pub use errors::{WfpError, WfpResult};
pub use events::{NetworkEvent, NetworkEventType};
pub use filter::{Action, Direction, FilterRule};
pub use filter_builder::FilterBuilder;
pub use filter_enum::{FilterAction, FilterInfo};
pub use layer::{select_layer, FilterWeight};
pub use transaction::TransactionState;
pub use provider::WfpInitializer;
