//! What follows a cycle: the end of the process, or a rest and the next
//! cycle.

use vstd::prelude::*;
use crate::config::Config;
use crate::ip::IpDiscoveryError;

verus! {

/// What to do once a cycle is over.
#[derive(Clone, Copy, Debug, PartialEq, Eq, Structural)]
pub enum Schedule {
    /// Leave, reporting whether the cycle went well.
    Exit { success: bool },
    /// Rest for so many seconds, then start the next cycle.
    Sleep { seconds: u64 },
}

/// What follows a cycle. A single run ends with the cycle and reports how it
/// went. A continuous run rests for the interval and goes on, however the
/// cycle went.
pub open spec fn schedule(run_once: bool, reconciliation_interval: u64, succeeded: bool) -> Schedule {
    if run_once {
        Schedule::Exit { success: succeeded }
    } else {
        Schedule::Sleep { seconds: reconciliation_interval }
    }
}

/// Decides what follows a cycle that ended with the given outcome.
pub fn after_cycle(config: &Config, outcome: &Result<(), IpDiscoveryError>) -> (next: Schedule)
    ensures
        next == schedule(config@.run_once, config@.reconciliation_interval, outcome is Ok),
{
    if config.run_once {
        Schedule::Exit { success: outcome.is_ok() }
    } else {
        Schedule::Sleep { seconds: config.reconciliation_interval }
    }
}

/// A continuous run never ends of itself: a cycle that failed is followed by
/// the same rest as one that went well.
pub proof fn lemma_continuous_run_goes_on(reconciliation_interval: u64, succeeded: bool)
    ensures
        schedule(false, reconciliation_interval, succeeded) == (Schedule::Sleep {
            seconds: reconciliation_interval,
        }),
{
}

} // verus!
