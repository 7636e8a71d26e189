//! The cycle scheduler's two-state rhythm: one backup cycle runs, then the
//! process sleeps for a fixed interval, forever. A failed cycle never ends
//! the process; after any outcome the next phase is the sleep.

use vstd::prelude::*;

verus! {

/// How long the scheduler sleeps between cycles: five hours, in seconds.
pub const CYCLE_SLEEP_SECS: u64 = 18000;

/// The scheduler's phase.
#[derive(Clone, Copy, PartialEq, Eq, Structural, Debug)]
pub enum Phase {
    /// A backup cycle is in progress.
    Running,
    /// The process waits for the next cycle.
    Sleeping,
}

/// The phase after a finished cycle or a finished sleep: the two phases
/// alternate, with no terminal state.
pub fn next_phase(p: Phase) -> (r: Phase)
    ensures
        p is Running ==> r is Sleeping,
        p is Sleeping ==> r is Running,
{
    match p {
        Phase::Running => Phase::Sleeping,
        Phase::Sleeping => Phase::Running,
    }
}

/// What follows a cycle, however it went: the sleep. Errors during rotation
/// or during the mirror-and-reconcile step are reported and isolated; they
/// never terminate the scheduler.
pub fn after_cycle(_rotation_failed: bool, _backup_failed: bool) -> (r: Phase)
    ensures
        r is Sleeping,
{
    Phase::Sleeping
}

} // verus!
