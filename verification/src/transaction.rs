//! State of a WFP transaction: begun, then committed or rolled back; one
//! that is neither is rolled back when it is dropped.

use vstd::prelude::*;

use crate::errors::{WfpError, WfpResult};

verus! {

/// Whether a transaction still has to be aborted when it ends.
#[derive(Debug)]
pub struct TransactionState {
    committed: bool,
}

impl TransactionState {
    /// Whether the transaction has been committed (or rolled back explicitly).
    pub closed spec fn settled(&self) -> bool {
        self.committed
    }

    /// The outcome of beginning a transaction, given the call's result code.
    pub fn begin(code: u32) -> (r: WfpResult<TransactionState>)
        ensures
            match r {
                Ok(t) => code == 0 && !t.settled(),
                Err(e) => code != 0 && e is TransactionBeginFailed,
            },
    {
        if code != 0 {
            return Err(WfpError::TransactionBeginFailed);
        }
        Ok(TransactionState { committed: false })
    }

    /// Records a commit, given the call's result code.
    pub fn commit(&mut self, code: u32) -> (r: WfpResult<()>)
        ensures
            match r {
                Ok(_) => code == 0,
                Err(e) => code != 0 && e is TransactionCommitFailed,
            },
            final(self).settled() == (old(self).settled() || code == 0),
    {
        if code != 0 {
            return Err(WfpError::TransactionCommitFailed);
        }
        self.committed = true;
        Ok(())
    }

    /// Records an explicit rollback, given the call's result code. A
    /// successful rollback is not repeated when the transaction is dropped.
    pub fn rollback(&mut self, code: u32) -> (r: WfpResult<()>)
        ensures
            match r {
                Ok(_) => code == 0,
                Err(e) => code != 0 && e is TransactionAbortFailed,
            },
            final(self).settled() == (old(self).settled() || code == 0),
    {
        if code != 0 {
            return Err(WfpError::TransactionAbortFailed);
        }
        self.committed = true;
        Ok(())
    }

    /// Check if transaction has been committed.
    pub fn is_committed(&self) -> (r: bool)
        ensures
            r == self.settled(),
    {
        self.committed
    }

    /// Whether the transaction is to be aborted when it is dropped.
    pub fn aborts_on_drop(&self) -> (r: bool)
        ensures
            r == !self.settled(),
    {
        !self.committed
    }
}

/// A transaction that was begun and then committed, or rolled back, with
/// success is not aborted again when dropped; after a failed commit it is.
pub proof fn lemma_drop_after_commit(code: u32, before: TransactionState, after: TransactionState)
    requires
        !before.settled(),
        after.settled() == (before.settled() || code == 0),
    ensures
        !after.settled() <==> code != 0,
{
}

} // verus!
