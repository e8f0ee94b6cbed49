//! Error values of WFP operations and their messages.

use vstd::prelude::*;

use crate::text::{decimal, push_decimal};

verus! {

/// Errors of WFP operations.
#[derive(Debug)]
pub enum WfpError {
    /// Failed to open WFP engine session
    EngineOpenFailed,
    /// Failed to close WFP engine session
    EngineCloseFailed,
    /// Failed to add filter
    FilterAddFailed(String),
    /// Failed to delete filter
    FilterDeleteFailed(String),
    /// The application path of a rule could not be turned into a WFP application id
    AppPathNotFound(String),
    /// Failed to begin transaction
    TransactionBeginFailed,
    /// Failed to commit transaction
    TransactionCommitFailed,
    /// Failed to abort transaction
    TransactionAbortFailed,
    /// Insufficient permissions (must run as administrator)
    InsufficientPermissions,
    /// WFP service not available
    ServiceNotAvailable,
    /// Win32 API error with code and message
    Win32Error { code: u32, message: String },
    /// Generic error with description
    Other(String),
}

/// Result of a WFP operation.
pub type WfpResult<T> = Result<T, WfpError>;

/// The message that describes a Win32 error code.
pub open spec fn win32_message(code: u32) -> Seq<char> {
    if code == 5 {
        "Access denied"@
    } else if code == 1062 {
        "Service not started"@
    } else if code == 1075 {
        "Service dependency does not exist"@
    } else {
        "Unknown Win32 error: "@ + decimal(code as nat)
    }
}

impl WfpError {
    /// The human-readable text of the error.
    pub open spec fn display_text(&self) -> Seq<char> {
        match self {
            WfpError::EngineOpenFailed => "Failed to open WFP engine session"@,
            WfpError::EngineCloseFailed => "Failed to close WFP engine session"@,
            WfpError::FilterAddFailed(s) => "Failed to add filter: "@ + s@,
            WfpError::FilterDeleteFailed(s) => "Failed to delete filter: "@ + s@,
            WfpError::AppPathNotFound(s) => "Application path not found: "@ + s@,
            WfpError::TransactionBeginFailed => "Failed to begin WFP transaction"@,
            WfpError::TransactionCommitFailed => "Failed to commit WFP transaction"@,
            WfpError::TransactionAbortFailed => "Failed to abort WFP transaction"@,
            WfpError::InsufficientPermissions =>
                "Insufficient permissions - administrator privileges required"@,
            WfpError::ServiceNotAvailable => "Windows Filtering Platform service not available"@,
            WfpError::Win32Error { code, message } =>
                "Win32 error "@ + decimal(*code as nat) + ": "@ + message@,
            WfpError::Other(s) => s@,
        }
    }

    /// Renders the error as text.
    pub fn to_string(&self) -> (r: String)
        ensures
            r@ == self.display_text(),
    {
        match self {
            WfpError::EngineOpenFailed => String::from_str("Failed to open WFP engine session"),
            WfpError::EngineCloseFailed => String::from_str("Failed to close WFP engine session"),
            WfpError::FilterAddFailed(s) => {
                let mut r = String::from_str("Failed to add filter: ");
                r.append(s.as_str());
                r
            },
            WfpError::FilterDeleteFailed(s) => {
                let mut r = String::from_str("Failed to delete filter: ");
                r.append(s.as_str());
                r
            },
            WfpError::AppPathNotFound(s) => {
                let mut r = String::from_str("Application path not found: ");
                r.append(s.as_str());
                r
            },
            WfpError::TransactionBeginFailed => String::from_str("Failed to begin WFP transaction"),
            WfpError::TransactionCommitFailed => String::from_str(
                "Failed to commit WFP transaction",
            ),
            WfpError::TransactionAbortFailed => String::from_str("Failed to abort WFP transaction"),
            WfpError::InsufficientPermissions => String::from_str(
                "Insufficient permissions - administrator privileges required",
            ),
            WfpError::ServiceNotAvailable => String::from_str(
                "Windows Filtering Platform service not available",
            ),
            WfpError::Win32Error { code, message } => {
                let mut r = String::from_str("Win32 error ");
                push_decimal(&mut r, *code as u64);
                r.append(": ");
                r.append(message.as_str());
                r
            },
            WfpError::Other(s) => String::from_str(s.as_str()),
        }
    }

    /// The error for a Win32 error code: the code together with its message.
    pub fn from_win32_code(code: u32) -> (e: WfpError)
        ensures
            e matches WfpError::Win32Error { code: c, message: m } && c == code && m@
                == win32_message(code),
    {
        let message = if code == 5 {
            String::from_str("Access denied")
        } else if code == 1062 {
            String::from_str("Service not started")
        } else if code == 1075 {
            String::from_str("Service dependency does not exist")
        } else {
            let mut m = String::from_str("Unknown Win32 error: ");
            push_decimal(&mut m, code as u64);
            m
        };
        WfpError::Win32Error { code, message }
    }
}

} // verus!
