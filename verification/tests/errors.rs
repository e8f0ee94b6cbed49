use windows_wfp::WfpError;

#[test]
fn test_error_display_messages() {
    assert_eq!(
        WfpError::EngineOpenFailed.to_string(),
        "Failed to open WFP engine session"
    );
    assert_eq!(
        WfpError::InsufficientPermissions.to_string(),
        "Insufficient permissions - administrator privileges required"
    );
    assert_eq!(
        WfpError::ServiceNotAvailable.to_string(),
        "Windows Filtering Platform service not available"
    );
    assert_eq!(
        WfpError::TransactionBeginFailed.to_string(),
        "Failed to begin WFP transaction"
    );
    assert_eq!(
        WfpError::TransactionCommitFailed.to_string(),
        "Failed to commit WFP transaction"
    );
    assert_eq!(
        WfpError::TransactionAbortFailed.to_string(),
        "Failed to abort WFP transaction"
    );
}

#[test]
fn test_error_display_with_details() {
    let err = WfpError::FilterAddFailed("test error".into());
    assert_eq!(err.to_string(), "Failed to add filter: test error");

    let err = WfpError::FilterDeleteFailed("filter 42".into());
    assert_eq!(err.to_string(), "Failed to delete filter: filter 42");

    let err = WfpError::Other("something happened".into());
    assert_eq!(err.to_string(), "something happened");
}

#[test]
fn test_win32_error_display() {
    let err = WfpError::Win32Error {
        code: 5,
        message: "Access denied".into(),
    };
    assert_eq!(err.to_string(), "Win32 error 5: Access denied");
}

#[test]
fn test_win32_error_conversion_access_denied() {
    let err = WfpError::from_win32_code(5);
    match err {
        WfpError::Win32Error { code, message } => {
            assert_eq!(code, 5);
            assert_eq!(message, "Access denied");
        }
        _ => panic!("Expected Win32Error"),
    }
}

#[test]
fn test_win32_error_conversion_service_not_started() {
    let err = WfpError::from_win32_code(1062);
    match err {
        WfpError::Win32Error { code, message } => {
            assert_eq!(code, 1062);
            assert_eq!(message, "Service not started");
        }
        _ => panic!("Expected Win32Error"),
    }
}

#[test]
fn test_win32_error_conversion_dependency_missing() {
    let err = WfpError::from_win32_code(1075);
    match err {
        WfpError::Win32Error { code, message } => {
            assert_eq!(code, 1075);
            assert_eq!(message, "Service dependency does not exist");
        }
        _ => panic!("Expected Win32Error"),
    }
}

#[test]
fn test_win32_error_conversion_unknown() {
    let err = WfpError::from_win32_code(9999);
    match err {
        WfpError::Win32Error { code, message } => {
            assert_eq!(code, 9999);
            assert!(message.contains("Unknown"));
            assert_eq!(message, "Unknown Win32 error: 9999");
        }
        _ => panic!("Expected Win32Error"),
    }
}

#[test]
fn remaining_error_texts() {
    assert_eq!(
        WfpError::EngineCloseFailed.to_string(),
        "Failed to close WFP engine session"
    );
    assert_eq!(
        WfpError::AppPathNotFound("C:\\x.exe".into()).to_string(),
        "Application path not found: C:\\x.exe"
    );
    assert_eq!(
        WfpError::from_win32_code(0).to_string(),
        "Win32 error 0: Unknown Win32 error: 0"
    );
    assert_eq!(
        WfpError::from_win32_code(4294967295).to_string(),
        "Win32 error 4294967295: Unknown Win32 error: 4294967295"
    );
}
