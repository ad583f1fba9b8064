//! What holds of whole runs of the retry machine.
//!
//! A batch runs one machine per transaction, and the machines take their
//! events in any order. A run is written down as the list of its steps, each
//! naming a transaction of the batch and the event that its machine took.

use crate::attempt::WaitError;
use crate::batch::all_committed;
use crate::counters::{bump, zero_tally, CounterView};
use crate::reliable::{next_state, Event, ExecutorView, SubmitState};
use crate::transaction::SignedTransaction;
use vstd::prelude::*;

verus! {

/// One step of a run: the machine of transaction number `txn` takes `event`.
pub struct BatchStep {
    pub txn: int,
    pub event: Event,
}

/// The states of the machines after `steps`, where they started in `states`.
/// A step that names no transaction of the batch changes nothing.
pub open spec fn states_after(max_retries: nat, states: Seq<SubmitState>, steps: Seq<BatchStep>) -> Seq<
    SubmitState,
>
    decreases steps.len(),
{
    if steps.len() == 0 {
        states
    } else {
        let before = states_after(max_retries, states, steps.drop_last());
        let step = steps.last();
        if 0 <= step.txn < before.len() {
            before.update(step.txn, next_state(max_retries, before[step.txn], step.event))
        } else {
            before
        }
    }
}

/// The counters after `steps`, where they stood at `counters` and the
/// machines for `txns` started in `states`.
pub open spec fn counters_after(
    executor: ExecutorView,
    txns: Seq<SignedTransaction>,
    run_seed: u64,
    states: Seq<SubmitState>,
    counters: CounterView,
    steps: Seq<BatchStep>,
) -> CounterView
    decreases steps.len(),
{
    if steps.len() == 0 {
        counters
    } else {
        let earlier = steps.drop_last();
        let before = counters_after(executor, txns, run_seed, states, counters, earlier);
        let at = states_after(executor.max_retries, states, earlier);
        let step = steps.last();
        if 0 <= step.txn < at.len() && step.txn < txns.len() {
            executor.next_counters(before, at[step.txn], txns[step.txn], run_seed, step.event)
        } else {
            before
        }
    }
}

/// The number of machines in `states` that have seen their transaction
/// committed.
spec fn done_count(states: Seq<SubmitState>) -> nat
    decreases states.len(),
{
    if states.len() == 0 {
        0
    } else {
        done_count(states.drop_last()) + if states.last() is Done {
            1nat
        } else {
            0nat
        }
    }
}

/// `count`, held to the range of a counter.
spec fn saturated(count: int) -> usize {
    if count <= usize::MAX {
        count as usize
    } else {
        usize::MAX
    }
}

/// Every attempt of `steps` failed, and each step belongs to transaction
/// `txn`.
pub open spec fn all_attempts_fail(steps: Seq<BatchStep>, txn: int) -> bool {
    forall|j: int|
        0 <= j < steps.len() ==> {
            &&& (#[trigger] steps[j]).txn == txn
            &&& steps[j].event matches Event::AttemptFinished(report)
            &&& report.result is Err
        }
}

proof fn lemma_states_len(max_retries: nat, states: Seq<SubmitState>, steps: Seq<BatchStep>)
    ensures
        states_after(max_retries, states, steps).len() == states.len(),
    decreases steps.len(),
{
    if steps.len() > 0 {
        lemma_states_len(max_retries, states, steps.drop_last());
    }
}

proof fn lemma_done_count_update(states: Seq<SubmitState>, k: int, v: SubmitState)
    requires
        0 <= k < states.len(),
    ensures
        done_count(states.update(k, v)) + (if states[k] is Done {
            1nat
        } else {
            0nat
        }) == done_count(states) + (if v is Done {
            1nat
        } else {
            0nat
        }),
    decreases states.len(),
{
    let changed = states.update(k, v);
    if k == states.len() - 1 {
        assert(changed.drop_last() == states.drop_last());
    } else {
        assert(changed.drop_last() == states.drop_last().update(k, v));
        lemma_done_count_update(states.drop_last(), k, v);
    }
}

proof fn lemma_done_count_all(states: Seq<SubmitState>)
    ensures
        done_count(states) <= states.len(),
        (forall|i: int| 0 <= i < states.len() ==> (#[trigger] states[i]) is Done) ==> done_count(
            states,
        ) == states.len(),
        (forall|i: int| 0 <= i < states.len() ==> !((#[trigger] states[i]) is Done))
            ==> done_count(states) == 0,
    decreases states.len(),
{
    if states.len() > 0 {
        lemma_done_count_all(states.drop_last());
        assert(forall|i: int|
            0 <= i < states.drop_last().len() ==> states.drop_last()[i] == states[i]);
    }
}

/// A step credits one success exactly when it brings its machine to `Done`,
/// and a machine that is there stays there.
proof fn lemma_step_successes(
    executor: ExecutorView,
    counters: CounterView,
    state: SubmitState,
    txn: SignedTransaction,
    run_seed: u64,
    event: Event,
)
    ensures
        state is Done ==> next_state(executor.max_retries, state, event) is Done,
        executor.next_counters(counters, state, txn, run_seed, event).successes == (if next_state(
            executor.max_retries,
            state,
            event,
        ) is Done && !(state is Done) {
            bump(counters.successes)
        } else {
            counters.successes
        }),
{
}

proof fn lemma_successes_follow_done(
    executor: ExecutorView,
    txns: Seq<SignedTransaction>,
    run_seed: u64,
    states: Seq<SubmitState>,
    counters: CounterView,
    steps: Seq<BatchStep>,
)
    requires
        states.len() == txns.len(),
    ensures
        states_after(executor.max_retries, states, steps).len() == states.len(),
        done_count(states_after(executor.max_retries, states, steps)) >= done_count(states),
        counters_after(executor, txns, run_seed, states, counters, steps).successes == saturated(
            counters.successes + done_count(states_after(executor.max_retries, states, steps))
                - done_count(states),
        ),
    decreases steps.len(),
{
    if steps.len() > 0 {
        let earlier = steps.drop_last();
        lemma_successes_follow_done(executor, txns, run_seed, states, counters, earlier);
        let at = states_after(executor.max_retries, states, earlier);
        let before = counters_after(executor, txns, run_seed, states, counters, earlier);
        let step = steps.last();
        if 0 <= step.txn < at.len() {
            let next = next_state(executor.max_retries, at[step.txn], step.event);
            lemma_step_successes(
                executor,
                before,
                at[step.txn],
                txns[step.txn],
                run_seed,
                step.event,
            );
            lemma_done_count_update(at, step.txn, next);
        }
    }
}

/// Every transaction that is seen committed is counted, and counted once.
///
/// Take a run of a batch in which every machine starts at its first attempt
/// and ends at `Done`, by an attempt or by the last wait, in whatever order
/// the machines took their steps. Then the batch has succeeded, and the
/// success counter has grown by the size of the batch; or it stands at the
/// top of its range, where it had less room than that.
pub proof fn law_committed_batch_counts_each_transaction(
    executor: ExecutorView,
    txns: Seq<SignedTransaction>,
    run_seed: u64,
    states: Seq<SubmitState>,
    counters: CounterView,
    steps: Seq<BatchStep>,
)
    requires
        states.len() == txns.len(),
        forall|i: int| 0 <= i < states.len() ==> (#[trigger] states[i]) == SubmitState::Attempting(0),
        forall|i: int|
            0 <= i < states.len() ==> (#[trigger] states_after(
                executor.max_retries,
                states,
                steps,
            )[i]) == SubmitState::Done,
    ensures
        counters.successes + txns.len() <= usize::MAX ==> counters_after(
            executor,
            txns,
            run_seed,
            states,
            counters,
            steps,
        ).successes == counters.successes + txns.len(),
        counters.successes + txns.len() > usize::MAX ==> counters_after(
            executor,
            txns,
            run_seed,
            states,
            counters,
            steps,
        ).successes == usize::MAX,
        states_after(executor.max_retries, states, steps).len() == txns.len(),
        all_committed(
            Seq::new(
                txns.len(),
                |i: int| states_after(executor.max_retries, states, steps)[i].spec_outcome().unwrap(),
            ),
        ),
{
    lemma_successes_follow_done(executor, txns, run_seed, states, counters, steps);
    lemma_done_count_all(states);
    lemma_done_count_all(states_after(executor.max_retries, states, steps));
}

/// One step never lowers a count, and keeps the buckets and the endpoints.
proof fn lemma_step_monotonic(
    executor: ExecutorView,
    counters: CounterView,
    state: SubmitState,
    txn: SignedTransaction,
    run_seed: u64,
    event: Event,
)
    requires
        counters.well_formed(),
    ensures
        executor.next_counters(counters, state, txn, run_seed, event).well_formed(),
        counters.no_greater_than(executor.next_counters(counters, state, txn, run_seed, event)),
{
    let after = executor.next_counters(counters, state, txn, run_seed, event);
    match (state, event) {
        (SubmitState::Attempting(i), Event::AttemptFinished(report)) => {
            let name = executor.chosen_name(i, run_seed, txn.sender@);
            let c1 = if report.failed_submit {
                counters.with_submit_failure(i as nat, name)
            } else {
                counters
            };
            let c2 = if report.failed_wait {
                c1.with_wait_failure(i as nat, name)
            } else {
                c1
            };
            CounterView::lemma_submit_failure_monotonic(counters, i as nat, name);
            CounterView::lemma_wait_failure_monotonic(c1, i as nat, name);
            CounterView::lemma_success_monotonic(c2, Some(name));
            CounterView::lemma_no_greater_than_transitive(counters, c1, c2);
            CounterView::lemma_no_greater_than_transitive(counters, c2, after);
        },
        (SubmitState::FallbackWait, Event::FallbackFinished(Ok(_))) => {
            CounterView::lemma_success_monotonic(counters, None);
        },
        _ => {
            CounterView::lemma_no_greater_than_reflexive(counters);
        },
    }
}

/// No count ever goes down.
///
/// Whatever the endpoints answer and in whatever order the machines of a
/// batch take their steps, after the run every attempt bucket, the success
/// counter and every endpoint's tally stand at least where they stood
/// before, and the buckets and the tracked endpoints are the same.
pub proof fn law_counters_never_decrease(
    executor: ExecutorView,
    txns: Seq<SignedTransaction>,
    run_seed: u64,
    states: Seq<SubmitState>,
    counters: CounterView,
    steps: Seq<BatchStep>,
)
    requires
        counters.well_formed(),
    ensures
        counters_after(executor, txns, run_seed, states, counters, steps).well_formed(),
        counters.no_greater_than(
            counters_after(executor, txns, run_seed, states, counters, steps),
        ),
    decreases steps.len(),
{
    if steps.len() == 0 {
        CounterView::lemma_no_greater_than_reflexive(counters);
    } else {
        let earlier = steps.drop_last();
        law_counters_never_decrease(executor, txns, run_seed, states, counters, earlier);
        let before = counters_after(executor, txns, run_seed, states, counters, earlier);
        let at = states_after(executor.max_retries, states, earlier);
        let step = steps.last();
        if 0 <= step.txn < at.len() && step.txn < txns.len() {
            lemma_step_monotonic(
                executor,
                before,
                at[step.txn],
                txns[step.txn],
                run_seed,
                step.event,
            );
            CounterView::lemma_no_greater_than_transitive(
                counters,
                before,
                counters_after(executor, txns, run_seed, states, counters, steps),
            );
        }
    }
}

proof fn lemma_failed_attempts_advance(
    max_retries: nat,
    states: Seq<SubmitState>,
    txn: int,
    steps: Seq<BatchStep>,
)
    requires
        1 <= max_retries <= usize::MAX,
        0 <= txn < states.len(),
        states[txn] == SubmitState::Attempting(0),
        steps.len() <= max_retries,
        all_attempts_fail(steps, txn),
    ensures
        states_after(max_retries, states, steps).len() == states.len(),
        states_after(max_retries, states, steps)[txn] == (if steps.len() < max_retries {
            SubmitState::Attempting(steps.len() as usize)
        } else {
            SubmitState::FallbackWait
        }),
    decreases steps.len(),
{
    lemma_states_len(max_retries, states, steps);
    if steps.len() > 0 {
        let earlier = steps.drop_last();
        assert(all_attempts_fail(earlier, txn)) by {
            assert forall|j: int| 0 <= j < earlier.len() implies {
                &&& (#[trigger] earlier[j]).txn == txn
                &&& earlier[j].event matches Event::AttemptFinished(report)
                &&& report.result is Err
            } by {
                assert(earlier[j] == steps[j]);
            }
        }
        lemma_failed_attempts_advance(max_retries, states, txn, earlier);
        lemma_states_len(max_retries, states, earlier);
        assert(steps.last() == steps[steps.len() - 1]);
    }
}

/// When every attempt fails, the last wait decides.
///
/// Let the machine of one transaction start at its first attempt and let
/// all of its `max_retries` attempts fail, for whatever reason. Then the
/// machine stands at the last wait. If that wait sees the commit, the
/// machine ends at `Done`, and the transaction counts as committed. If the
/// wait fails too, the machine ends at `Failed` with the wait's error, and
/// no batch that holds this transaction has succeeded.
pub proof fn law_last_wait_decides(
    max_retries: nat,
    states: Seq<SubmitState>,
    txn: int,
    attempts: Seq<BatchStep>,
    last: Result<(), WaitError>,
)
    requires
        1 <= max_retries <= usize::MAX,
        0 <= txn < states.len(),
        states[txn] == SubmitState::Attempting(0),
        attempts.len() == max_retries,
        all_attempts_fail(attempts, txn),
    ensures
        states_after(max_retries, states, attempts)[txn] == SubmitState::FallbackWait,
        states_after(
            max_retries,
            states,
            attempts.push(BatchStep { txn, event: Event::FallbackFinished(last) }),
        )[txn] == (match last {
            Ok(_) => SubmitState::Done,
            Err(e) => SubmitState::Failed(e),
        }),
        states_after(
            max_retries,
            states,
            attempts.push(BatchStep { txn, event: Event::FallbackFinished(last) }),
        )[txn].spec_outcome() == Some(last),
{
    lemma_failed_attempts_advance(max_retries, states, txn, attempts);
    let all = attempts.push(BatchStep { txn, event: Event::FallbackFinished(last) });
    assert(all.drop_last() == attempts);
    assert(all.last() == BatchStep { txn, event: Event::FallbackFinished(last) });
    if let Ok(unit) = last {
        assert(unit == ());
    }
}

/// Every step of `steps` is an attempt of transaction `txn` in which both
/// the submission and the wait failed.
pub open spec fn all_attempts_unreachable(steps: Seq<BatchStep>, txn: int) -> bool {
    forall|j: int|
        0 <= j < steps.len() ==> {
            &&& (#[trigger] steps[j]).txn == txn
            &&& steps[j].event matches Event::AttemptFinished(report)
            &&& report.result is Err
            &&& report.failed_submit
            &&& report.failed_wait
        }
}

proof fn lemma_unreachable_prefix(
    executor: ExecutorView,
    txns: Seq<SignedTransaction>,
    run_seed: u64,
    states: Seq<SubmitState>,
    counters: CounterView,
    txn: int,
    steps: Seq<BatchStep>,
)
    requires
        executor.valid(),
        counters.well_formed(),
        counters.buckets() == executor.max_retries,
        states.len() == txns.len(),
        0 <= txn < states.len(),
        states[txn] == SubmitState::Attempting(0),
        steps.len() <= executor.max_retries,
        all_attempts_unreachable(steps, txn),
    ensures
        all_attempts_fail(steps, txn),
        ({
            let after = counters_after(executor, txns, run_seed, states, counters, steps);
            &&& after.well_formed()
            &&& after.buckets() == executor.max_retries
            &&& after.successes == counters.successes
            &&& forall|i: int|
                0 <= i < executor.max_retries ==> {
                    &&& #[trigger] after.submit_failures[i] == (if i < steps.len() {
                        bump(counters.submit_failures[i])
                    } else {
                        counters.submit_failures[i]
                    })
                    &&& after.wait_failures[i] == (if i < steps.len() {
                        bump(counters.wait_failures[i])
                    } else {
                        counters.wait_failures[i]
                    })
                }
        }),
    decreases steps.len(),
{
    if steps.len() > 0 {
        let earlier = steps.drop_last();
        assert(all_attempts_unreachable(earlier, txn)) by {
            assert forall|j: int| 0 <= j < earlier.len() implies {
                &&& (#[trigger] earlier[j]).txn == txn
                &&& earlier[j].event matches Event::AttemptFinished(report)
                &&& report.result is Err
                &&& report.failed_submit
                &&& report.failed_wait
            } by {
                assert(earlier[j] == steps[j]);
            }
        }
        lemma_unreachable_prefix(executor, txns, run_seed, states, counters, txn, earlier);
        lemma_failed_attempts_advance(executor.max_retries, states, txn, earlier);
        let step = steps.last();
        assert(step == steps[steps.len() - 1]);
        let before = counters_after(executor, txns, run_seed, states, counters, earlier);
        let at = states_after(executor.max_retries, states, earlier);
        let attempt = earlier.len() as usize;
        assert(at[txn] == SubmitState::Attempting(attempt));
        let name = executor.chosen_name(attempt, run_seed, txns[txn].sender@);
        let c1 = before.with_submit_failure(attempt as nat, name);
        let after = c1.with_wait_failure(attempt as nat, name);
        assert(before.bucket(attempt as nat) == attempt);
        assert(c1.bucket(attempt as nat) == attempt);
        assert(after == counters_after(executor, txns, run_seed, states, counters, steps));
    }
    assert(all_attempts_fail(steps, txn));
}

/// An endpoint that cannot be reached fills every attempt bucket.
///
/// Let the counters have one bucket per attempt, and let the machine of one
/// transaction go through all of its attempts with both the submission and
/// the wait failing each time. Then each bucket has counted one failed
/// submission and one failed wait more than before, no success has been
/// counted, and the machine stands at the last wait.
pub proof fn law_unreachable_endpoint_fills_every_bucket(
    executor: ExecutorView,
    txns: Seq<SignedTransaction>,
    run_seed: u64,
    states: Seq<SubmitState>,
    counters: CounterView,
    txn: int,
    attempts: Seq<BatchStep>,
)
    requires
        executor.valid(),
        counters.well_formed(),
        counters.buckets() == executor.max_retries,
        states.len() == txns.len(),
        0 <= txn < states.len(),
        states[txn] == SubmitState::Attempting(0),
        attempts.len() == executor.max_retries,
        all_attempts_unreachable(attempts, txn),
    ensures
        states_after(executor.max_retries, states, attempts)[txn] == SubmitState::FallbackWait,
        counters_after(executor, txns, run_seed, states, counters, attempts).successes
            == counters.successes,
        forall|i: int|
            0 <= i < executor.max_retries ==> {
                &&& #[trigger] counters_after(
                    executor,
                    txns,
                    run_seed,
                    states,
                    counters,
                    attempts,
                ).submit_failures[i] == bump(counters.submit_failures[i])
                &&& counters_after(
                    executor,
                    txns,
                    run_seed,
                    states,
                    counters,
                    attempts,
                ).wait_failures[i] == bump(counters.wait_failures[i])
            },
{
    lemma_unreachable_prefix(executor, txns, run_seed, states, counters, txn, attempts);
    lemma_failed_attempts_advance(executor.max_retries, states, txn, attempts);
}

/// The counters that an executor starts a phase with fit its configuration:
/// at least one attempt is allowed, and there is one bucket for failed
/// submissions and one for failed waits per attempt, each at zero.
pub proof fn law_fresh_counters_fit_the_executor(executor: ExecutorView)
    requires
        executor.valid(),
    ensures
        executor.max_retries >= 1,
        executor.fresh_counters().well_formed(),
        executor.fresh_counters().submit_failures.len() == executor.max_retries,
        executor.fresh_counters().wait_failures.len() == executor.max_retries,
        forall|i: int|
            0 <= i < executor.max_retries ==> {
                &&& #[trigger] executor.fresh_counters().submit_failures[i] == 0
                &&& executor.fresh_counters().wait_failures[i] == 0
            },
        executor.fresh_counters().successes == 0,
        forall|i: int|
            0 <= i < executor.endpoints.len() ==> {
                &&& executor.fresh_counters().by_client.dom().contains(
                    #[trigger] executor.endpoints[i],
                )
                &&& executor.fresh_counters().by_client[executor.endpoints[i]] == zero_tally()
            },
{
}

/// A batch with a transaction that was not committed has not succeeded.
pub proof fn law_one_failure_fails_the_batch(
    outcomes: Seq<Result<(), WaitError>>,
    failed: int,
    error: WaitError,
)
    requires
        0 <= failed < outcomes.len(),
        outcomes[failed] == Err::<(), WaitError>(error),
    ensures
        !all_committed(outcomes),
{
}

/// The choice of an endpoint is a function of the attempt, the run seed, the
/// sender and the pool: two executors over the same pool choose alike.
pub proof fn law_selection_is_deterministic(
    one: ExecutorView,
    other: ExecutorView,
    attempt: usize,
    run_seed: u64,
    sender: Seq<u8>,
)
    requires
        one.endpoints == other.endpoints,
    ensures
        one.chosen(attempt, run_seed, sender) == other.chosen(attempt, run_seed, sender),
        one.chosen_name(attempt, run_seed, sender) == other.chosen_name(attempt, run_seed, sender),
{
}

} // verus!
