//! Registration of the TRusTY Wall provider and sublayer, and the order of
//! the steps that initialize WFP.

use vstd::prelude::*;

use crate::constants::{
    ERROR_FWP_ALREADY_EXISTS, FWPM_PROVIDER_FLAG_PERSISTENT, FWPM_SESSION_FLAG_DYNAMIC,
    FWPM_SUBLAYER_FLAG_PERSISTENT,
};
use crate::errors::{WfpError, WfpResult};
use crate::text::{decimal, push_decimal};

verus! {

/// Display name of the TRusTY Wall provider.
pub const PROVIDER_NAME: &'static str = "TRusTY Wall";

/// Description of the TRusTY Wall provider.
pub const PROVIDER_DESCRIPTION: &'static str = "TRusTY Wall Firewall Provider";

/// Display name of the TRusTY Wall sublayer.
pub const SUBLAYER_NAME: &'static str = "TRusTY Wall Filters";

/// Description of the TRusTY Wall sublayer.
pub const SUBLAYER_DESCRIPTION: &'static str = "Sublayer for TRusTY Wall firewall exception filters";

/// Weight of the sublayer: the maximum, so its filters are evaluated first.
pub const SUBLAYER_WEIGHT: u16 = 0xFFFFu16;

/// What is being registered.
/// The flags the provider is registered with: persistent, so that the
/// registration survives the session and reboots.
pub const PROVIDER_FLAGS: u32 = FWPM_PROVIDER_FLAG_PERSISTENT;

/// The flags the sublayer is registered with: persistent, like the provider.
pub const SUBLAYER_FLAGS: u32 = FWPM_SUBLAYER_FLAG_PERSISTENT;

/// The flags of a session in which persistent objects can be added.
pub const STATIC_SESSION_FLAGS: u32 = 0u32;

/// Whether a session opened with `session_flags` cannot hold persistent
/// objects: a dynamic session removes what it adds when it ends, and WFP
/// refuses persistent objects in it, so they are registered in a session
/// opened with `STATIC_SESSION_FLAGS` instead.
pub fn needs_static_session(session_flags: u32) -> (r: bool)
    ensures
        r == (session_flags & FWPM_SESSION_FLAG_DYNAMIC != 0),
{
    session_flags & FWPM_SESSION_FLAG_DYNAMIC != 0
}

#[derive(Debug, Clone, Copy, PartialEq, Eq, Structural)]
pub enum Registration {
    /// The provider
    Provider,
    /// The sublayer
    Sublayer,
}

/// The name of a registration in its failure message.
pub open spec fn registration_name(what: Registration) -> Seq<char> {
    match what {
        Registration::Provider => "provider"@,
        Registration::Sublayer => "sublayer"@,
    }
}

/// The outcome of a registration call: success, or an object that already
/// exists (registration is idempotent), is success.
pub fn registration_outcome(what: Registration, code: u32) -> (r: WfpResult<()>)
    ensures
        r is Ok <==> (code == 0 || code == ERROR_FWP_ALREADY_EXISTS),
        r matches Err(e) ==> (e matches WfpError::Other(m) && m@ == "Failed to register "@
            + registration_name(what) + ": error code "@ + decimal(code as nat)),
{
    if code == 0 || code == ERROR_FWP_ALREADY_EXISTS {
        return Ok(());
    }
    let mut m = String::from_str("Failed to register ");
    match what {
        Registration::Provider => m.append("provider"),
        Registration::Sublayer => m.append("sublayer"),
    }
    m.append(": error code ");
    push_decimal(&mut m, code as u64);
    Err(WfpError::Other(m))
}

/// A step of initializing WFP.
#[derive(Debug, Clone, Copy, PartialEq, Eq, Structural)]
pub enum InitStep {
    /// Begin a transaction
    BeginTransaction,
    /// Register the provider
    RegisterProvider,
    /// Register the sublayer
    RegisterSublayer,
    /// Commit the transaction
    CommitTransaction,
    /// Initialization has ended
    Finished,
}

/// The position of a step in the initialization order.
pub open spec fn step_index(s: InitStep) -> nat {
    match s {
        InitStep::BeginTransaction => 0,
        InitStep::RegisterProvider => 1,
        InitStep::RegisterSublayer => 2,
        InitStep::CommitTransaction => 3,
        InitStep::Finished => 4,
    }
}

/// The step that follows a step that succeeded.
pub open spec fn step_after(s: InitStep) -> InitStep {
    match s {
        InitStep::BeginTransaction => InitStep::RegisterProvider,
        InitStep::RegisterProvider => InitStep::RegisterSublayer,
        InitStep::RegisterSublayer => InitStep::CommitTransaction,
        _ => InitStep::Finished,
    }
}

/// Initialization of the provider and sublayer in one transaction: begin,
/// register the provider, register the sublayer, commit. The first step that
/// fails ends it with that step's error (the transaction is then rolled back
/// when dropped).
#[derive(Debug)]
pub struct WfpInitializer {
    step: InitStep,
}

impl WfpInitializer {
    /// The step to perform next.
    pub closed spec fn current(&self) -> InitStep {
        self.step
    }

    /// Starts at the beginning of a transaction.
    pub fn new() -> (r: WfpInitializer)
        ensures
            r.current() == InitStep::BeginTransaction,
    {
        WfpInitializer { step: InitStep::BeginTransaction }
    }

    /// The step to perform next.
    pub fn next_step(&self) -> (r: InitStep)
        ensures
            r == self.current(),
    {
        self.step
    }

    /// Records the outcome of the current step. Returns the result of the
    /// whole initialization once it has ended: the error of a failed step, or
    /// success after the commit succeeded.
    pub fn advance(&mut self, outcome: WfpResult<()>) -> (r: Option<WfpResult<()>>)
        requires
            old(self).current() != InitStep::Finished,
        ensures
            match outcome {
                Ok(_) => {
                    &&& final(self).current() == step_after(old(self).current())
                    &&& (old(self).current() == InitStep::CommitTransaction) ==> (r matches Some(Ok(_)))
                    &&& (old(self).current() != InitStep::CommitTransaction) ==> (r is None)
                },
                Err(e) => final(self).current() == InitStep::Finished && r == Some(
                    Err::<(), WfpError>(e),
                ),
            },
    {
        match outcome {
            Ok(()) => {
                match self.step {
                    InitStep::BeginTransaction => {
                        self.step = InitStep::RegisterProvider;
                        None
                    },
                    InitStep::RegisterProvider => {
                        self.step = InitStep::RegisterSublayer;
                        None
                    },
                    InitStep::RegisterSublayer => {
                        self.step = InitStep::CommitTransaction;
                        None
                    },
                    _ => {
                        self.step = InitStep::Finished;
                        Some(Ok(()))
                    },
                }
            },
            Err(e) => {
                self.step = InitStep::Finished;
                Some(Err(e))
            },
        }
    }
}

/// The step reached from the start after the outcomes `oks` (true for a
/// success), stopping at the first failure.
pub open spec fn step_reached(oks: Seq<bool>) -> InitStep
    decreases oks.len(),
{
    if oks.len() == 0 {
        InitStep::BeginTransaction
    } else {
        let prev = step_reached(oks.drop_last());
        if prev == InitStep::Finished {
            InitStep::Finished
        } else if oks.last() {
            step_after(prev)
        } else {
            InitStep::Finished
        }
    }
}

/// Initialization ends with success only after four successful steps, in
/// order: while every step so far succeeded, the step reached is the number
/// of steps taken (up to the commit), and the commit is reached only after
/// the transaction began and both registrations succeeded.
pub proof fn lemma_init_order(oks: Seq<bool>)
    requires
        oks.len() <= 4,
        forall|i: int| 0 <= i < oks.len() ==> #[trigger] oks[i],
    ensures
        step_index(step_reached(oks)) == oks.len(),
    decreases oks.len(),
{
    if oks.len() > 0 {
        lemma_init_order(oks.drop_last());
    }
}

/// A failed step ends initialization at once, whatever comes after it.
pub proof fn lemma_init_failure_ends(oks: Seq<bool>, i: int)
    requires
        0 <= i < oks.len(),
        !oks[i],
    ensures
        step_reached(oks) == InitStep::Finished,
    decreases oks.len(),
{
    if i < oks.len() - 1 {
        lemma_init_failure_ends(oks.drop_last(), i);
    }
}

} // verus!
