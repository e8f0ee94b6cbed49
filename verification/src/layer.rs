//! WFP layer selection and filter weight levels.

use vstd::prelude::*;

use crate::constants::{
    Guid, LAYER_ALE_AUTH_CONNECT_V4, LAYER_ALE_AUTH_CONNECT_V6, LAYER_ALE_AUTH_RECV_ACCEPT_V4,
    LAYER_ALE_AUTH_RECV_ACCEPT_V6,
};
use crate::filter::Direction;

verus! {

/// The WFP layer that filters traffic of a direction and IP version.
pub open spec fn layer_for(direction: Direction, is_ipv6: bool) -> Guid {
    match (direction, is_ipv6) {
        (Direction::Outbound, false) => LAYER_ALE_AUTH_CONNECT_V4,
        (Direction::Outbound, true) => LAYER_ALE_AUTH_CONNECT_V6,
        (Direction::Inbound, false) => LAYER_ALE_AUTH_RECV_ACCEPT_V4,
        (Direction::Inbound, true) => LAYER_ALE_AUTH_RECV_ACCEPT_V6,
    }
}

/// Select the appropriate WFP layer GUID for a given direction and IP version.
pub fn select_layer(direction: Direction, is_ipv6: bool) -> (r: Guid)
    ensures
        r == layer_for(direction, is_ipv6),
{
    match (direction, is_ipv6) {
        (Direction::Outbound, false) => LAYER_ALE_AUTH_CONNECT_V4,
        (Direction::Outbound, true) => LAYER_ALE_AUTH_CONNECT_V6,
        (Direction::Inbound, false) => LAYER_ALE_AUTH_RECV_ACCEPT_V4,
        (Direction::Inbound, true) => LAYER_ALE_AUTH_RECV_ACCEPT_V6,
    }
}

/// Each direction and IP version has a layer of its own.
pub proof fn lemma_layers_distinct(d1: Direction, v1: bool, d2: Direction, v2: bool)
    ensures
        layer_for(d1, v1) == layer_for(d2, v2) ==> d1 == d2 && v1 == v2,
{
}

/// Standard filter weight (priority) levels. Higher weight = higher priority
/// (evaluated first by WFP).
#[derive(Debug, Clone, Copy, PartialEq, Eq, Hash, Structural)]
pub enum FilterWeight {
    /// Blocklist filters (highest priority, 9M)
    Blocklist,
    /// Raw socket permit filters (8M)
    RawSocketPermit,
    /// Raw socket block filters (7M)
    RawSocketBlock,
    /// User-defined block filters (6M)
    UserBlock,
    /// User-defined permit filters (5M)
    UserPermit,
    /// Default permit filter (4M)
    DefaultPermit,
    /// Default block filter (lowest priority, 3M)
    DefaultBlock,
}

/// The numeric weight of a level.
pub open spec fn weight_value(w: FilterWeight) -> u64 {
    match w {
        FilterWeight::Blocklist => 9_000_000,
        FilterWeight::RawSocketPermit => 8_000_000,
        FilterWeight::RawSocketBlock => 7_000_000,
        FilterWeight::UserBlock => 6_000_000,
        FilterWeight::UserPermit => 5_000_000,
        FilterWeight::DefaultPermit => 4_000_000,
        FilterWeight::DefaultBlock => 3_000_000,
    }
}

/// The position of a level in priority order, from highest (0) to lowest.
pub open spec fn weight_rank(w: FilterWeight) -> nat {
    match w {
        FilterWeight::Blocklist => 0,
        FilterWeight::RawSocketPermit => 1,
        FilterWeight::RawSocketBlock => 2,
        FilterWeight::UserBlock => 3,
        FilterWeight::UserPermit => 4,
        FilterWeight::DefaultPermit => 5,
        FilterWeight::DefaultBlock => 6,
    }
}

impl FilterWeight {
    /// Get the numeric weight value as `u64`.
    pub fn value(self) -> (r: u64)
        ensures
            r == weight_value(self),
    {
        match self {
            FilterWeight::Blocklist => 9_000_000,
            FilterWeight::RawSocketPermit => 8_000_000,
            FilterWeight::RawSocketBlock => 7_000_000,
            FilterWeight::UserBlock => 6_000_000,
            FilterWeight::UserPermit => 5_000_000,
            FilterWeight::DefaultPermit => 4_000_000,
            FilterWeight::DefaultBlock => 3_000_000,
        }
    }
}

/// The levels are strictly ordered: a level listed earlier (higher priority)
/// has a strictly greater weight, from `Blocklist` (highest) down to
/// `DefaultBlock` (lowest).
pub proof fn lemma_weight_order(a: FilterWeight, b: FilterWeight)
    ensures
        weight_rank(a) < weight_rank(b) <==> weight_value(a) > weight_value(b),
        weight_value(FilterWeight::Blocklist) >= weight_value(a),
        weight_value(a) >= weight_value(FilterWeight::DefaultBlock),
{
}

} // verus!
