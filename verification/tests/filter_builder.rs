use windows_wfp::condition::IpAddr;
use windows_wfp::filter_builder::{ConditionValue, FilterCondition};
use windows_wfp::{
    Action, Direction, FilterBuilder, FilterRule, FilterWeight, IpAddrMask, Protocol, WfpError,
    CONDITION_ALE_APP_ID, CONDITION_ALE_PACKAGE_ID, CONDITION_ALE_USER_ID, CONDITION_IP_LOCAL_ADDRESS, CONDITION_IP_LOCAL_PORT,
    CONDITION_IP_PROTOCOL, CONDITION_IP_REMOTE_ADDRESS, CONDITION_IP_REMOTE_PORT,
    FWP_ACTION_BLOCK, FWP_ACTION_PERMIT, FWP_BYTE_BLOB_TYPE, FWP_MATCH_EQUAL, FWP_SECURITY_DESCRIPTOR_TYPE, FWP_SID, FWP_UINT16,
    FWP_UINT8, FWP_V4_ADDR_MASK, FWP_V6_ADDR_MASK, LAYER_ALE_AUTH_CONNECT_V4,
    LAYER_ALE_AUTH_CONNECT_V6, LAYER_ALE_AUTH_RECV_ACCEPT_V4, TRUSTY_PROVIDER_GUID,
    TRUSTY_SUBLAYER_GUID,
};

fn c(key: u128, value: ConditionValue) -> FilterCondition {
    FilterCondition { field_key: key, match_type: FWP_MATCH_EQUAL, value }
}

#[test]
fn test_action_translation() {
    assert_eq!(
        FilterBuilder::translate_action(Action::Permit),
        FWP_ACTION_PERMIT
    );
    assert_eq!(
        FilterBuilder::translate_action(Action::Block),
        FWP_ACTION_BLOCK
    );
}

#[test]
fn test_protocol_translation() {
    assert_eq!(FilterBuilder::translate_protocol(Protocol::Hopopt), 0);
    assert_eq!(FilterBuilder::translate_protocol(Protocol::Icmp), 1);
    assert_eq!(FilterBuilder::translate_protocol(Protocol::Igmp), 2);
    assert_eq!(FilterBuilder::translate_protocol(Protocol::Tcp), 6);
    assert_eq!(FilterBuilder::translate_protocol(Protocol::Udp), 17);
    assert_eq!(FilterBuilder::translate_protocol(Protocol::Gre), 47);
    assert_eq!(FilterBuilder::translate_protocol(Protocol::Esp), 50);
    assert_eq!(FilterBuilder::translate_protocol(Protocol::Ah), 51);
    assert_eq!(FilterBuilder::translate_protocol(Protocol::Icmpv6), 58);
}

#[test]
fn test_prefix_to_v4_mask() {
    assert_eq!(FilterBuilder::prefix_to_v4_mask(0), 0x00000000);
    assert_eq!(FilterBuilder::prefix_to_v4_mask(8), 0xFF000000);
    assert_eq!(FilterBuilder::prefix_to_v4_mask(16), 0xFFFF0000);
    assert_eq!(FilterBuilder::prefix_to_v4_mask(24), 0xFFFFFF00);
    assert_eq!(FilterBuilder::prefix_to_v4_mask(32), 0xFFFFFFFF);
}

#[test]
fn test_prefix_to_v4_mask_all_values() {
    assert_eq!(FilterBuilder::prefix_to_v4_mask(1), 0x80000000);
    assert_eq!(FilterBuilder::prefix_to_v4_mask(4), 0xF0000000);
    assert_eq!(FilterBuilder::prefix_to_v4_mask(12), 0xFFF00000);
    assert_eq!(FilterBuilder::prefix_to_v4_mask(20), 0xFFFFF000);
    assert_eq!(FilterBuilder::prefix_to_v4_mask(28), 0xFFFFFFF0);
    assert_eq!(FilterBuilder::prefix_to_v4_mask(31), 0xFFFFFFFE);
}

#[test]
fn test_prefix_to_v4_mask_overflow() {
    // prefix > 32 should saturate to all ones
    assert_eq!(FilterBuilder::prefix_to_v4_mask(33), 0xFFFFFFFF);
    assert_eq!(FilterBuilder::prefix_to_v4_mask(255), 0xFFFFFFFF);
}

#[test]
fn mask_has_the_top_prefix_bits_set() {
    for p in 0u8..=40 {
        let expected: u32 = if p >= 32 { u32::MAX } else { ((1u64 << 32) - (1u64 << (32 - p as u64))) as u32 };
        assert_eq!(FilterBuilder::prefix_to_v4_mask(p), expected, "{}", p);
    }
}

#[test]
fn rule_without_conditions_gives_empty_filter() {
    let t = FilterBuilder::translate(&FilterRule::allow_all_outbound());
    assert!(t.conditions.is_empty());
    assert_eq!(t.layer_key, LAYER_ALE_AUTH_CONNECT_V4);
    assert_eq!(t.provider_key, TRUSTY_PROVIDER_GUID);
    assert_eq!(t.sublayer_key, TRUSTY_SUBLAYER_GUID);
    assert_eq!(t.action_type, FWP_ACTION_PERMIT);
    assert_eq!(t.weight, FilterWeight::DefaultPermit.value());
    assert_eq!(t.name, "Allow All Outbound");
    assert!(t.app_path.is_none());
}

#[test]
fn full_rule_gives_conditions_in_order() {
    let rule = FilterRule::new("Full", Direction::Inbound, Action::Block)
        .with_app_path(r"C:\test.exe")
        .with_protocol(Protocol::Udp)
        .with_remote_port(53)
        .with_local_port(5353)
        .with_remote_ip(IpAddrMask::from_cidr("192.168.0.0/16").unwrap())
        .with_local_ip(IpAddrMask::from_cidr("10.0.0.1/32").unwrap())
        .with_service_name("svc");
    let t = FilterBuilder::translate(&rule);
    assert_eq!(t.layer_key, LAYER_ALE_AUTH_RECV_ACCEPT_V4);
    assert_eq!(t.action_type, FWP_ACTION_BLOCK);
    assert_eq!(t.app_path.as_deref(), Some(r"C:\test.exe"));
    assert_eq!(t.service_name.as_deref(), Some("svc"));
    assert_eq!(t.app_container_sid, None);
    assert_eq!(
        t.conditions,
        vec![
            c(CONDITION_ALE_APP_ID, ConditionValue::AppId),
            c(CONDITION_ALE_USER_ID, ConditionValue::ServiceSid),
            c(CONDITION_IP_REMOTE_PORT, ConditionValue::Uint16(53)),
            c(CONDITION_IP_LOCAL_PORT, ConditionValue::Uint16(5353)),
            c(CONDITION_IP_PROTOCOL, ConditionValue::Uint8(17)),
            c(
                CONDITION_IP_REMOTE_ADDRESS,
                ConditionValue::V4AddrMask { v4_addr: 0xC0A8_0000, mask: 0xFFFF_0000 }
            ),
            c(
                CONDITION_IP_LOCAL_ADDRESS,
                ConditionValue::V4AddrMask { v4_addr: 0x0A00_0001, mask: 0xFFFF_FFFF }
            ),
        ]
    );
    let types: Vec<i32> = t.conditions.iter().map(|c| c.value.value_type()).collect();
    assert_eq!(
        types,
        vec![
            FWP_BYTE_BLOB_TYPE,
            FWP_SECURITY_DESCRIPTOR_TYPE,
            FWP_UINT16,
            FWP_UINT16,
            FWP_UINT8,
            FWP_V4_ADDR_MASK,
            FWP_V4_ADDR_MASK
        ]
    );
}

#[test]
fn ipv6_addresses_choose_the_ipv6_layer() {
    let rule = FilterRule::new("v6", Direction::Outbound, Action::Block)
        .with_remote_ip(IpAddrMask::from_cidr("2001:db8::/32").unwrap());
    let t = FilterBuilder::translate(&rule);
    assert_eq!(t.layer_key, LAYER_ALE_AUTH_CONNECT_V6);
    assert_eq!(
        t.conditions,
        vec![c(
            CONDITION_IP_REMOTE_ADDRESS,
            ConditionValue::V6AddrMask { v6_addr: 0x2001_0db8_0000_0000_0000_0000_0000_0000, prefix_length: 32 }
        )]
    );
    assert_eq!(t.conditions[0].value.value_type(), FWP_V6_ADDR_MASK);

    // Without a remote address, the local address decides.
    let rule = FilterRule::new("v6 local", Direction::Outbound, Action::Block)
        .with_local_ip(IpAddrMask::new(IpAddr::V6(1), 128));
    assert!(FilterBuilder::is_ipv6_rule(&rule));
    assert_eq!(FilterBuilder::translate(&rule).layer_key, LAYER_ALE_AUTH_CONNECT_V6);

    // The remote address wins over the local one.
    let rule = rule.with_remote_ip(IpAddrMask::new(IpAddr::V4(1), 32));
    assert!(!FilterBuilder::is_ipv6_rule(&rule));
}

#[test]
fn outcomes_of_the_filter_calls() {
    assert_eq!(FilterBuilder::add_outcome("r", 0, 42).unwrap(), 42);
    match FilterBuilder::add_outcome("Block curl", 5, 42) {
        Err(WfpError::FilterAddFailed(m)) => {
            assert_eq!(m, "Failed to add filter 'Block curl': error code 5")
        }
        other => panic!("unexpected {:?}", other),
    }
    assert!(FilterBuilder::delete_outcome(7, 0).is_ok());
    match FilterBuilder::delete_outcome(7, 2150760456) {
        Err(WfpError::FilterDeleteFailed(m)) => {
            assert_eq!(m, "Failed to delete filter ID 7: error code 2150760456")
        }
        other => panic!("unexpected {:?}", other),
    }
    assert!(FilterBuilder::app_id_outcome(r"C:\a.exe", 0).is_ok());
    match FilterBuilder::app_id_outcome(r"C:\this\path\does\not\exist.exe", 2) {
        Err(WfpError::AppPathNotFound(p)) => assert_eq!(p, r"C:\this\path\does\not\exist.exe"),
        other => panic!("unexpected {:?}", other),
    }
}

#[test]
fn service_and_app_container_restrict_the_filter() {
    let rule = FilterRule::new("Svc", Direction::Outbound, Action::Block).with_service_name("Dnscache");
    let t = FilterBuilder::translate(&rule);
    assert_eq!(t.conditions, vec![c(CONDITION_ALE_USER_ID, ConditionValue::ServiceSid)]);
    assert_eq!(t.service_name.as_deref(), Some("Dnscache"));

    let sid = "S-1-15-2-1-2-3-4-5-6-7";
    let rule = FilterRule::new("Pkg", Direction::Outbound, Action::Permit).with_app_container_sid(sid);
    let t = FilterBuilder::translate(&rule);
    assert_eq!(t.conditions, vec![c(CONDITION_ALE_PACKAGE_ID, ConditionValue::PackageSid)]);
    assert_eq!(t.app_container_sid.as_deref(), Some(sid));
    assert_eq!(t.conditions[0].value.value_type(), FWP_SID);

    let rule = FilterRule::new("Both", Direction::Inbound, Action::Block)
        .with_app_container_sid(sid)
        .with_service_name("svc")
        .with_remote_port(80);
    let t = FilterBuilder::translate(&rule);
    assert_eq!(
        t.conditions,
        vec![
            c(CONDITION_ALE_USER_ID, ConditionValue::ServiceSid),
            c(CONDITION_ALE_PACKAGE_ID, ConditionValue::PackageSid),
            c(CONDITION_IP_REMOTE_PORT, ConditionValue::Uint16(80)),
        ]
    );
}

#[test]
fn identity_resolution_outcomes() {
    assert!(FilterBuilder::service_sid_outcome("svc", 0).is_ok());
    match FilterBuilder::service_sid_outcome("svc", 1332) {
        Err(WfpError::Other(m)) => assert_eq!(m, "Failed to resolve service 'svc': error code 1332"),
        other => panic!("unexpected {:?}", other),
    }
    assert!(FilterBuilder::app_container_sid_outcome("S-1-15-2-1", 0).is_ok());
    match FilterBuilder::app_container_sid_outcome("bad", 1337) {
        Err(WfpError::Other(m)) => assert_eq!(m, "Invalid AppContainer SID 'bad': error code 1337"),
        other => panic!("unexpected {:?}", other),
    }
}

#[test]
fn service_identity_texts() {
    assert_eq!(FilterBuilder::service_account_name("Dnscache"), r"NT SERVICE\Dnscache");
    assert_eq!(
        FilterBuilder::service_sddl("S-1-5-80-1-2"),
        "D:(A;;CC;;;S-1-5-80-1-2)"
    );
}
