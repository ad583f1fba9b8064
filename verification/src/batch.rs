//! How a batch of submissions ends.
//!
//! A batch succeeds only if every one of its transactions was seen
//! committed. One that was not fails the whole batch, and the error says how
//! large the batch was and how the counters stood.

use crate::attempt::WaitError;
use crate::counters::CounterState;
use vstd::prelude::*;

verus! {

/// The failure of a batch in which some transaction was never seen committed.
#[derive(Debug)]
pub struct AggregateBatchError {
    /// The number of transactions in the batch.
    pub batch_size: usize,
    /// The counters as they stood when the batch ended.
    pub counters: CounterState,
    /// The place in the batch of the first transaction that failed.
    pub first_failed: usize,
    /// The error of the last wait for that transaction.
    pub cause: WaitError,
}

/// Every submission of `outcomes` ended with the transaction committed.
pub open spec fn all_committed(outcomes: Seq<Result<(), WaitError>>) -> bool {
    forall|i: int| 0 <= i < outcomes.len() ==> (#[trigger] outcomes[i]) is Ok
}

/// `at` is the place of the first failure in `outcomes`.
pub open spec fn first_failure_at(outcomes: Seq<Result<(), WaitError>>, at: int) -> bool {
    &&& 0 <= at < outcomes.len()
    &&& outcomes[at] is Err
    &&& forall|i: int| 0 <= i < at ==> (#[trigger] outcomes[i]) is Ok
}

/// The result of a batch whose submissions ended as `outcomes`, in batch
/// order, with the counters standing at `counters`.
///
/// The batch succeeded if all of its submissions did. Otherwise it failed
/// with the error of the first one that failed, the size of the batch, and a
/// copy of the counters.
pub fn conclude(outcomes: &[Result<(), WaitError>], counters: &CounterState) -> (r: Result<
    (),
    AggregateBatchError,
>)
    requires
        counters.well_formed(),
    ensures
        r is Ok <==> all_committed(outcomes@),
        r matches Err(e) ==> {
            &&& e.batch_size == outcomes@.len()
            &&& e.counters.well_formed()
            &&& e.counters@ == counters@
            &&& first_failure_at(outcomes@, e.first_failed as int)
            &&& outcomes@[e.first_failed as int] == Err::<(), WaitError>(e.cause)
        },
{
    let mut i: usize = 0;
    while i < outcomes.len()
        invariant
            i <= outcomes@.len(),
            counters.well_formed(),
            forall|k: int| 0 <= k < i ==> (#[trigger] outcomes@[k]) is Ok,
        decreases outcomes@.len() - i,
    {
        match outcomes[i] {
            Ok(_) => {},
            Err(cause) => {
                return Err(
                    AggregateBatchError {
                        batch_size: outcomes.len(),
                        counters: counters.snapshot(),
                        first_failed: i,
                        cause,
                    },
                );
            },
        }
        i = i + 1;
    }
    Ok(())
}

} // verus!
