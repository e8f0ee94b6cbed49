use windows_wfp::provider::{
    needs_static_session, PROVIDER_FLAGS, STATIC_SESSION_FLAGS, SUBLAYER_FLAGS,
};
use windows_wfp::{FWPM_PROVIDER_FLAG_PERSISTENT, FWPM_SESSION_FLAG_DYNAMIC, FWPM_SUBLAYER_FLAG_PERSISTENT};
use windows_wfp::engine::open_outcome;
use windows_wfp::provider::{registration_outcome, InitStep, Registration};
use windows_wfp::{TransactionState, WfpError, WfpInitializer, ERROR_FWP_ALREADY_EXISTS};

#[test]
fn engine_open_codes() {
    assert!(open_outcome(0).is_ok());
    assert!(matches!(open_outcome(5), Err(WfpError::InsufficientPermissions)));
    assert!(matches!(open_outcome(1062), Err(WfpError::ServiceNotAvailable)));
    assert!(matches!(open_outcome(1075), Err(WfpError::ServiceNotAvailable)));
    assert!(matches!(open_outcome(0x80320002), Err(WfpError::EngineOpenFailed)));
    assert!(matches!(open_outcome(1), Err(WfpError::EngineOpenFailed)));
}

#[test]
fn test_engine_without_permissions() {
    // Whatever code a refused open reports, the error is one of these three.
    for code in [1u32, 2, 5, 87, 1062, 1075, 1722, 0x80320002, u32::MAX] {
        match open_outcome(code) {
            Err(WfpError::InsufficientPermissions) => (),
            Err(WfpError::ServiceNotAvailable) => (),
            Err(WfpError::EngineOpenFailed) => (),
            other => panic!("Unexpected error: {:?}", other),
        }
    }
}

#[test]
fn transaction_commit_and_rollback() {
    let mut t = TransactionState::begin(0).unwrap();
    assert!(!t.is_committed());
    assert!(t.aborts_on_drop());
    assert!(t.commit(0).is_ok());
    assert!(t.is_committed());
    assert!(!t.aborts_on_drop());

    let mut t = TransactionState::begin(0).unwrap();
    assert!(matches!(t.commit(1), Err(WfpError::TransactionCommitFailed)));
    assert!(t.aborts_on_drop());

    let mut t = TransactionState::begin(0).unwrap();
    assert!(t.rollback(0).is_ok());
    assert!(!t.aborts_on_drop());

    let mut t = TransactionState::begin(0).unwrap();
    assert!(matches!(t.rollback(6), Err(WfpError::TransactionAbortFailed)));
    assert!(t.aborts_on_drop());

    assert!(matches!(TransactionState::begin(6), Err(WfpError::TransactionBeginFailed)));
}

#[test]
fn registration_is_idempotent() {
    assert!(registration_outcome(Registration::Provider, 0).is_ok());
    assert!(registration_outcome(Registration::Provider, ERROR_FWP_ALREADY_EXISTS).is_ok());
    assert!(registration_outcome(Registration::Sublayer, ERROR_FWP_ALREADY_EXISTS).is_ok());
    match registration_outcome(Registration::Provider, 5) {
        Err(WfpError::Other(m)) => assert_eq!(m, "Failed to register provider: error code 5"),
        other => panic!("unexpected {:?}", other),
    }
    match registration_outcome(Registration::Sublayer, 2150760450) {
        Err(WfpError::Other(m)) => {
            assert_eq!(m, "Failed to register sublayer: error code 2150760450")
        }
        other => panic!("unexpected {:?}", other),
    }
}

#[test]
fn initialization_runs_four_steps_in_order() {
    let mut init = WfpInitializer::new();
    assert_eq!(init.next_step(), InitStep::BeginTransaction);
    assert!(init.advance(Ok(())).is_none());
    assert_eq!(init.next_step(), InitStep::RegisterProvider);
    assert!(init.advance(Ok(())).is_none());
    assert_eq!(init.next_step(), InitStep::RegisterSublayer);
    assert!(init.advance(Ok(())).is_none());
    assert_eq!(init.next_step(), InitStep::CommitTransaction);
    assert!(matches!(init.advance(Ok(())), Some(Ok(()))));
    assert_eq!(init.next_step(), InitStep::Finished);
}

#[test]
fn initialization_stops_at_the_first_failure() {
    let mut init = WfpInitializer::new();
    assert!(init.advance(Ok(())).is_none());
    match init.advance(Err(WfpError::Other("x".into()))) {
        Some(Err(WfpError::Other(m))) => assert_eq!(m, "x"),
        other => panic!("unexpected {:?}", other),
    }
    assert_eq!(init.next_step(), InitStep::Finished);
}

#[test]
fn registrations_are_persistent_and_made_outside_dynamic_sessions() {
    assert_eq!(PROVIDER_FLAGS, FWPM_PROVIDER_FLAG_PERSISTENT);
    assert_eq!(PROVIDER_FLAGS, 1);
    assert_eq!(SUBLAYER_FLAGS, FWPM_SUBLAYER_FLAG_PERSISTENT);
    assert_eq!(SUBLAYER_FLAGS, 1);
    assert!(needs_static_session(FWPM_SESSION_FLAG_DYNAMIC));
    assert!(needs_static_session(FWPM_SESSION_FLAG_DYNAMIC | 4));
    assert!(!needs_static_session(STATIC_SESSION_FLAGS));
    assert!(!needs_static_session(2));
}
