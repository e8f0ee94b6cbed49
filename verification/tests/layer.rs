use windows_wfp::{
    select_layer, Direction, FilterWeight, LAYER_ALE_AUTH_CONNECT_V4, LAYER_ALE_AUTH_CONNECT_V6,
    LAYER_ALE_AUTH_RECV_ACCEPT_V4, LAYER_ALE_AUTH_RECV_ACCEPT_V6,
};

#[test]
fn test_layer_selection() {
    assert_eq!(
        select_layer(Direction::Outbound, false),
        LAYER_ALE_AUTH_CONNECT_V4
    );
    assert_eq!(
        select_layer(Direction::Outbound, true),
        LAYER_ALE_AUTH_CONNECT_V6
    );
    assert_eq!(
        select_layer(Direction::Inbound, false),
        LAYER_ALE_AUTH_RECV_ACCEPT_V4
    );
    assert_eq!(
        select_layer(Direction::Inbound, true),
        LAYER_ALE_AUTH_RECV_ACCEPT_V6
    );
}

#[test]
fn test_filter_weight_ordering() {
    assert!(FilterWeight::Blocklist.value() > FilterWeight::RawSocketPermit.value());
    assert!(FilterWeight::UserBlock.value() > FilterWeight::UserPermit.value());
    assert!(FilterWeight::DefaultPermit.value() > FilterWeight::DefaultBlock.value());
}

#[test]
fn test_filter_weight_values() {
    assert_eq!(FilterWeight::Blocklist.value(), 9_000_000);
    assert_eq!(FilterWeight::DefaultBlock.value(), 3_000_000);
}

#[test]
fn weight_levels_strictly_decrease_in_priority_order() {
    let levels = [
        FilterWeight::Blocklist,
        FilterWeight::RawSocketPermit,
        FilterWeight::RawSocketBlock,
        FilterWeight::UserBlock,
        FilterWeight::UserPermit,
        FilterWeight::DefaultPermit,
        FilterWeight::DefaultBlock,
    ];
    for w in levels.windows(2) {
        assert!(w[0].value() > w[1].value());
    }
    assert_eq!(FilterWeight::RawSocketBlock.value(), 7_000_000);
    assert_eq!(FilterWeight::UserBlock.value(), 6_000_000);
    assert_eq!(FilterWeight::UserPermit.value(), 5_000_000);
    assert_eq!(FilterWeight::DefaultPermit.value(), 4_000_000);
    assert_eq!(FilterWeight::RawSocketPermit.value(), 8_000_000);
}
