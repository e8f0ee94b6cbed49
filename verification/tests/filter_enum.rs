use windows_wfp::filter_enum::{
    display_string, extract_app_path, BlobData, EnumStep, FilterEnumeration, FwpValue,
    RawCondition, RawConditionValue, RawFilter,
};
use windows_wfp::{
    FilterAction, FilterInfo, WfpError, CONDITION_ALE_APP_ID, CONDITION_IP_REMOTE_PORT,
    FWP_ACTION_BLOCK, FWP_ACTION_CALLOUT_INSPECTION, FWP_ACTION_CALLOUT_TERMINATING,
    FWP_ACTION_CALLOUT_UNKNOWN, FWP_ACTION_PERMIT,
};

#[test]
fn test_filter_action_eq() {
    assert_eq!(FilterAction::Block, FilterAction::Block);
    assert_eq!(FilterAction::Permit, FilterAction::Permit);
    assert_ne!(FilterAction::Block, FilterAction::Permit);
    assert_eq!(FilterAction::Other(42), FilterAction::Other(42));
    assert_ne!(FilterAction::Other(1), FilterAction::Other(2));
}

#[test]
fn test_filter_action_copy() {
    let action = FilterAction::Block;
    let copy = action;
    assert_eq!(action, copy);
}

#[test]
fn test_filter_info_clone() {
    let info = FilterInfo {
        id: 42,
        name: "Test filter".to_string(),
        description: "A test".to_string(),
        action: FilterAction::Block,
        provider_key: None,
        weight: 1000,
        layer_key: 0,
        sublayer_key: 0,
        app_path: Some(r"C:\test.exe".to_string()),
        num_conditions: 1,
    };

    let cloned = info.clone();
    assert_eq!(cloned.id, 42);
    assert_eq!(cloned.name, "Test filter");
    assert_eq!(cloned.action, FilterAction::Block);
    assert!(cloned.app_path.is_some());
}

#[test]
fn test_filter_info_default_values() {
    let info = FilterInfo {
        id: 0,
        name: String::new(),
        description: String::new(),
        action: FilterAction::Permit,
        provider_key: None,
        weight: 0,
        layer_key: 0,
        sublayer_key: 0,
        app_path: None,
        num_conditions: 0,
    };

    assert_eq!(info.id, 0);
    assert!(info.name.is_empty());
    assert!(info.provider_key.is_none());
    assert!(info.app_path.is_none());
}

#[test]
fn test_filter_info_with_provider() {
    let guid = 0x12345678_1234_5678_1234_567812345678u128;
    let info = FilterInfo {
        id: 100,
        name: "Provider filter".to_string(),
        description: String::new(),
        action: FilterAction::Block,
        provider_key: Some(guid),
        weight: 5000,
        layer_key: 0,
        sublayer_key: 0,
        app_path: None,
        num_conditions: 3,
    };

    assert_eq!(info.provider_key, Some(guid));
    assert_eq!(info.num_conditions, 3);
}

#[test]
fn action_types_are_read() {
    assert_eq!(FilterAction::from_action_type(FWP_ACTION_BLOCK), FilterAction::Block);
    assert_eq!(FilterAction::from_action_type(FWP_ACTION_PERMIT), FilterAction::Permit);
    assert_eq!(
        FilterAction::from_action_type(FWP_ACTION_CALLOUT_TERMINATING),
        FilterAction::CalloutTerminating
    );
    assert_eq!(
        FilterAction::from_action_type(FWP_ACTION_CALLOUT_INSPECTION),
        FilterAction::CalloutInspection
    );
    assert_eq!(
        FilterAction::from_action_type(FWP_ACTION_CALLOUT_UNKNOWN),
        FilterAction::CalloutUnknown
    );
    assert_eq!(FilterAction::from_action_type(7), FilterAction::Other(7));
}

fn wide_bytes(s: &str) -> Vec<u8> {
    let mut b = Vec::new();
    for u in s.encode_utf16() {
        b.push((u & 0xff) as u8);
        b.push((u >> 8) as u8);
    }
    b
}

fn blob_condition(key: u128, bytes: Vec<u8>) -> RawCondition {
    RawCondition {
        field_key: key,
        value: RawConditionValue::ByteBlob(Some(BlobData {
            size: bytes.len() as u32,
            data: Some(bytes),
        })),
    }
}

#[test]
fn app_path_is_read_from_the_first_app_id_condition() {
    let mut bytes = wide_bytes("\\device\\harddiskvolume4\\x\u{1F600}.exe");
    bytes.extend_from_slice(&[0, 0, 0x41, 0]);
    let conds = vec![
        RawCondition { field_key: CONDITION_IP_REMOTE_PORT, value: RawConditionValue::Other(2) },
        blob_condition(CONDITION_ALE_APP_ID, bytes),
        blob_condition(CONDITION_ALE_APP_ID, wide_bytes("second")),
    ];
    assert_eq!(
        extract_app_path(&conds).as_deref(),
        Some("\\device\\harddiskvolume4\\x\u{1F600}.exe")
    );
}

#[test]
fn app_path_needs_a_well_formed_blob() {
    assert_eq!(extract_app_path(&vec![]), None);
    // odd size
    assert_eq!(extract_app_path(&vec![blob_condition(CONDITION_ALE_APP_ID, vec![0x41, 0, 0x42])]), None);
    // empty blob
    assert_eq!(extract_app_path(&vec![blob_condition(CONDITION_ALE_APP_ID, vec![])]), None);
    // unpaired surrogate
    assert_eq!(extract_app_path(&vec![blob_condition(CONDITION_ALE_APP_ID, vec![0x00, 0xD8, 0x41, 0])]), None);
    // not a blob
    assert_eq!(
        extract_app_path(&vec![RawCondition {
            field_key: CONDITION_ALE_APP_ID,
            value: RawConditionValue::Other(1)
        }]),
        None
    );
    // null blob or data
    assert_eq!(
        extract_app_path(&vec![RawCondition {
            field_key: CONDITION_ALE_APP_ID,
            value: RawConditionValue::ByteBlob(None)
        }]),
        None
    );
    assert_eq!(
        extract_app_path(&vec![RawCondition {
            field_key: CONDITION_ALE_APP_ID,
            value: RawConditionValue::ByteBlob(Some(BlobData { size: 4, data: None }))
        }]),
        None
    );
    // a first condition that fails is not skipped for a later one
    assert_eq!(
        extract_app_path(&vec![
            blob_condition(CONDITION_ALE_APP_ID, vec![0x41]),
            blob_condition(CONDITION_ALE_APP_ID, wide_bytes("ok")),
        ]),
        None
    );
    // a NUL at the start gives the empty path
    assert_eq!(extract_app_path(&vec![blob_condition(CONDITION_ALE_APP_ID, vec![0, 0, 0x41, 0])]).as_deref(), Some(""));
}

#[test]
fn display_strings_decode_or_fall_back_to_empty() {
    let units: Vec<u16> = "Name \u{e9}\u{1F600}".encode_utf16().collect();
    assert_eq!(display_string(&Some(units)), "Name \u{e9}\u{1F600}");
    assert_eq!(display_string(&None), "");
    assert_eq!(display_string(&Some(vec![0xDC00])), "");
}

#[test]
fn filter_info_from_raw() {
    let raw = RawFilter {
        filter_id: 9,
        name: Some("N".encode_utf16().collect()),
        description: None,
        action_type: FWP_ACTION_BLOCK,
        provider_key: Some(5),
        weight: FwpValue::Uint64(Some(123456789012)),
        layer_key: 1,
        sublayer_key: 2,
        num_conditions: 1,
        conditions: vec![blob_condition(CONDITION_ALE_APP_ID, wide_bytes("p"))],
    };
    let info = FilterInfo::from_raw(&raw);
    assert_eq!(info.id, 9);
    assert_eq!(info.name, "N");
    assert_eq!(info.description, "");
    assert_eq!(info.action, FilterAction::Block);
    assert_eq!(info.provider_key, Some(5));
    assert_eq!(info.weight, 123456789012);
    assert_eq!(info.layer_key, 1);
    assert_eq!(info.sublayer_key, 2);
    assert_eq!(info.app_path.as_deref(), Some("p"));
    assert_eq!(info.num_conditions, 1);

    for (v, w) in [
        (FwpValue::Empty, 0u64),
        (FwpValue::Uint8(7), 7),
        (FwpValue::Uint16(700), 700),
        (FwpValue::Uint32(70000), 70000),
        (FwpValue::Uint64(None), 0),
        (FwpValue::Other(9), 0),
    ] {
        let r = RawFilter { weight: v, ..raw.clone() };
        assert_eq!(FilterInfo::from_raw(&r).weight, w);
    }
}

#[test]
fn enumeration_steps() {
    match FilterEnumeration::start(5) {
        Err(WfpError::Other(m)) => assert_eq!(m, "Failed to create filter enum handle: error code 5"),
        other => panic!("unexpected {:?}", other),
    }
    let mut e = FilterEnumeration::start(0).unwrap();
    assert!(matches!(e.on_batch(0, 100), EnumStep::FetchNext));
    assert!(matches!(e.on_batch(0, 3), EnumStep::FetchNext));
    assert!(matches!(e.on_batch(0, 0), EnumStep::Finished));
    assert_eq!(e.seen, 103);
    assert!(e.done);

    let mut e = FilterEnumeration::start(0).unwrap();
    assert!(matches!(e.on_batch(0, 4), EnumStep::FetchNext));
    match e.on_batch(87, 4) {
        EnumStep::Failed(WfpError::Other(m)) => {
            assert_eq!(m, "Failed to enumerate filters: error code 87")
        }
        other => panic!("unexpected {:?}", other),
    }
    assert_eq!(e.seen, 4);
}

#[test]
fn enumeration_collects_each_batch() {
    let raw = |id: u64| RawFilter {
        filter_id: id,
        name: Some("F".encode_utf16().collect()),
        description: None,
        action_type: FWP_ACTION_BLOCK,
        provider_key: None,
        weight: FwpValue::Uint8(id as u8),
        layer_key: 1,
        sublayer_key: 2,
        num_conditions: 0,
        conditions: vec![],
    };
    let mut e = FilterEnumeration::start(0).unwrap();
    let mut out = Vec::new();
    assert!(matches!(e.collect_batch(0, &vec![raw(1), raw(2)], &mut out), EnumStep::FetchNext));
    assert!(matches!(e.collect_batch(0, &vec![raw(3)], &mut out), EnumStep::FetchNext));
    assert!(matches!(e.collect_batch(0, &vec![], &mut out), EnumStep::Finished));
    assert_eq!(e.seen, 3);
    assert_eq!(out.iter().map(|f| f.id).collect::<Vec<_>>(), vec![1, 2, 3]);
    assert_eq!(out.iter().map(|f| f.weight).collect::<Vec<_>>(), vec![1, 2, 3]);
    assert_eq!(out[0].name, "F");

    let mut e = FilterEnumeration::start(0).unwrap();
    let mut out = Vec::new();
    match e.collect_batch(6, &vec![], &mut out) {
        EnumStep::Failed(WfpError::Other(m)) => {
            assert_eq!(m, "Failed to enumerate filters: error code 6")
        }
        other => panic!("unexpected {:?}", other),
    }
    assert!(out.is_empty());
    assert!(e.done);
}

#[test]
fn counting_and_collecting_the_same_batches_agree() {
    let raw = |id: u64| RawFilter {
        filter_id: id,
        name: None,
        description: None,
        action_type: FWP_ACTION_PERMIT,
        provider_key: None,
        weight: FwpValue::Empty,
        layer_key: 0,
        sublayer_key: 0,
        num_conditions: 0,
        conditions: vec![],
    };
    let batches = vec![vec![raw(10), raw(11), raw(12)], vec![raw(13)], vec![raw(14), raw(15)], vec![]];

    let mut collecting = FilterEnumeration::start(0).unwrap();
    let mut out = Vec::new();
    let mut counting = FilterEnumeration::start(0).unwrap();
    for b in &batches {
        let a = collecting.collect_batch(0, b, &mut out);
        let c = counting.on_batch(0, b.len() as u32);
        assert_eq!(matches!(a, EnumStep::Finished), matches!(c, EnumStep::Finished));
    }
    assert_eq!(counting.seen, out.len());
    assert_eq!(collecting.seen, 6);
    assert_eq!(out.iter().map(|f| f.id).collect::<Vec<_>>(), vec![10, 11, 12, 13, 14, 15]);
}
