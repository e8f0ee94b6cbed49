//! Opening a WFP engine session: the parameters and what a result code means.

use vstd::prelude::*;

use crate::errors::{WfpError, WfpResult};

verus! {

/// `RPC_C_AUTHN_WINNT`: Windows NT authentication for the session.
pub const RPC_C_AUTHN_WINNT: u32 = 10u32;

/// The outcome of opening a session, given the open call's result code:
/// access denied (5) means the process lacks administrator rights, a stopped
/// service or missing dependency (1062, 1075) means WFP is not available, and
/// any other failure is a failed open.
pub fn open_outcome(code: u32) -> (r: WfpResult<()>)
    ensures
        r is Ok <==> code == 0,
        code == 5 ==> r matches Err(WfpError::InsufficientPermissions),
        code == 1062 || code == 1075 ==> r matches Err(WfpError::ServiceNotAvailable),
        code != 0 && code != 5 && code != 1062 && code != 1075 ==> r matches Err(
            WfpError::EngineOpenFailed,
        ),
{
    if code == 0 {
        Ok(())
    } else if code == 5 {
        Err(WfpError::InsufficientPermissions)
    } else if code == 1062 || code == 1075 {
        Err(WfpError::ServiceNotAvailable)
    } else {
        Err(WfpError::EngineOpenFailed)
    }
}

} // verus!
