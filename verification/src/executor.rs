//! What every executor offers, whichever way it gets transactions committed.

use crate::counters::{CounterState, CounterView};
use vstd::prelude::*;

verus! {

/// A look-up of an account that gave no answer.
#[derive(Clone, Copy, Debug, PartialEq, Eq, Structural)]
pub enum LookupError {
    /// The account, or what was asked of it, does not exist.
    Absent,
    /// The look-up was retried as often as its policy allows, in vain.
    RetriesExhausted,
}

/// An executor of transactions for a benchmark.
///
/// A driver creates one set of counters per phase and hands the same set to
/// every batch of that phase, so that the counts add up over the phase.
/// Looking up balances and sequence numbers, and getting a batch committed,
/// take I/O: they are the caller's, who follows the executor's decisions and
/// reports a look-up that failed as a [`LookupError`].
pub trait TransactionExecutor {
    /// The counters that this executor starts a phase with.
    spec fn fresh_counters(&self) -> CounterView;

    /// Counters sized for this executor, with nothing counted.
    fn create_counter_state(&self) -> (r: CounterState)
        ensures
            r.well_formed(),
            r@ == self.fresh_counters(),
    ;
}

} // verus!
