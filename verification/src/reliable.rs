//! The executor that submits over a pool of endpoints and retries.
//!
//! For each transaction it runs a small machine: up to `max_retries`
//! attempts, each at the endpoint chosen for that round, then one last wait
//! at an endpoint picked by chance. The machine performs nothing itself. It
//! names the next action, takes what came of it, counts, and moves on.

use crate::attempt::{AttemptReport, WaitError};
use crate::timespan::TimeSpan;
use crate::counters::{CounterState, CounterView};
use crate::executor::TransactionExecutor;
use crate::selector::{select, select_random, selected_index};
use crate::transaction::SignedTransaction;
use vstd::prelude::*;

verus! {

/// One node of the network, as the executor knows it.
#[derive(Debug)]
pub struct Endpoint {
    /// The place of the endpoint in the executor's pool.
    pub id: usize,
    /// The name under which the endpoint's failures and successes are
    /// counted.
    pub path_prefix: String,
}

/// Where the submission of one transaction stands.
#[derive(Clone, Copy, Debug, PartialEq, Eq, Structural)]
pub enum SubmitState {
    /// Attempt number `.0` is due or under way; the first is number 0.
    Attempting(usize),
    /// Every attempt failed; the last wait is due or under way.
    FallbackWait,
    /// The transaction was seen committed.
    Done,
    /// The last wait failed too, with this error.
    Failed(WaitError),
}

/// What the caller reports back to the machine.
#[derive(Clone, Copy, Debug, PartialEq, Eq)]
pub enum Event {
    /// The attempt that was asked for ended with this report.
    AttemptFinished(AttemptReport),
    /// The last wait that was asked for ended like this.
    FallbackFinished(Result<(), WaitError>),
}

/// What the machine asks the caller to do next.
#[derive(Clone, Copy, Debug, PartialEq, Eq)]
pub enum Action {
    /// Submit the transaction to the endpoint at this place of the pool, then
    /// wait there for the commit, both within `wait_budget`.
    SubmitAndWait { endpoint: usize, wait_budget: TimeSpan },
    /// Wait for the commit at the endpoint at this place of the pool, for as
    /// long as the transport waits by itself.
    FallbackWait { endpoint: usize },
    /// Nothing is left to do: the machine has reached its end.
    Stop,
}

/// The state that follows `state` on `event`, with `max_retries` attempts
/// allowed.
///
/// An attempt that succeeds ends the submission. One that fails leads to the
/// next attempt while one is left, and to the last wait after that. The last
/// wait ends the submission either way. An event that does not answer what
/// the state asked for changes nothing.
pub open spec fn next_state(max_retries: nat, state: SubmitState, event: Event) -> SubmitState {
    match (state, event) {
        (SubmitState::Attempting(i), Event::AttemptFinished(report)) => {
            if report.result is Ok {
                SubmitState::Done
            } else if i + 1 < max_retries {
                SubmitState::Attempting((i + 1) as usize)
            } else {
                SubmitState::FallbackWait
            }
        },
        (SubmitState::FallbackWait, Event::FallbackFinished(result)) => {
            match result {
                Ok(_) => SubmitState::Done,
                Err(e) => SubmitState::Failed(e),
            }
        },
        _ => state,
    }
}

/// `counters` after attempt `attempt` at `endpoint` ended with `report`:
/// each failure that the report flags is counted for the attempt and for the
/// endpoint, and so is a success.
pub open spec fn tally_attempt(
    counters: CounterView,
    attempt: usize,
    endpoint: Seq<char>,
    report: AttemptReport,
) -> CounterView {
    let c1 = if report.failed_submit {
        counters.with_submit_failure(attempt as nat, endpoint)
    } else {
        counters
    };
    let c2 = if report.failed_wait {
        c1.with_wait_failure(attempt as nat, endpoint)
    } else {
        c1
    };
    if report.result is Ok {
        c2.with_success(Some(endpoint))
    } else {
        c2
    }
}

/// What a [`RestApiTransactionExecutor`] is made of: the names of its
/// endpoints in pool order, the number of attempts it allows, and the time it
/// allows each attempt, in nanoseconds.
pub struct ExecutorView {
    pub endpoints: Seq<Seq<char>>,
    pub max_retries: nat,
    pub retry_after: nat,
}

impl ExecutorView {
    /// The pool holds an endpoint, and at least one attempt is allowed, but
    /// no more than can be numbered.
    pub open spec fn valid(self) -> bool {
        &&& self.endpoints.len() >= 1
        &&& 1 <= self.max_retries <= usize::MAX
    }

    /// The place in the pool of the endpoint chosen for `sender` in attempt
    /// `attempt` of the run with seed `run_seed`.
    pub open spec fn chosen(self, attempt: usize, run_seed: u64, sender: Seq<u8>) -> nat {
        selected_index(self.endpoints.len(), attempt, run_seed, sender)
    }

    /// The name of that endpoint.
    pub open spec fn chosen_name(self, attempt: usize, run_seed: u64, sender: Seq<u8>) -> Seq<
        char,
    > {
        self.endpoints[self.chosen(attempt, run_seed, sender) as int]
    }

    /// `counters` after the machine for `txn`, in `state`, took `event`.
    ///
    /// The report of an attempt is counted for that attempt and for the
    /// endpoint chosen for it. A last wait that succeeds is counted as a
    /// success and for no endpoint. Nothing else is counted.
    pub open spec fn next_counters(
        self,
        counters: CounterView,
        state: SubmitState,
        txn: SignedTransaction,
        run_seed: u64,
        event: Event,
    ) -> CounterView {
        match (state, event) {
            (SubmitState::Attempting(i), Event::AttemptFinished(report)) => tally_attempt(
                counters,
                i,
                self.chosen_name(i, run_seed, txn.sender@),
                report,
            ),
            (SubmitState::FallbackWait, Event::FallbackFinished(Ok(_))) => counters.with_success(
                None,
            ),
            _ => counters,
        }
    }

    /// The counters that the executor starts a phase with: one bucket per
    /// attempt, every endpoint of the pool tracked, nothing counted.
    pub open spec fn fresh_counters(self) -> CounterView {
        CounterView::fresh(self.max_retries, self.endpoints)
    }
}

impl SubmitState {
    /// How a submission in this state ended: `Ok` for a transaction seen
    /// committed, the last wait's error for one that was not. `None` while
    /// the submission is under way.
    pub open spec fn spec_outcome(self) -> Option<Result<(), WaitError>> {
        match self {
            SubmitState::Done => Some(Ok(())),
            SubmitState::Failed(e) => Some(Err(e)),
            _ => None,
        }
    }

    /// The state in which every submission starts: the first attempt is due.
    pub fn start() -> (r: SubmitState)
        ensures
            r == SubmitState::Attempting(0),
    {
        SubmitState::Attempting(0)
    }

    /// How the submission ended, once it has; `None` while it is under way.
    pub fn outcome(&self) -> (r: Option<Result<(), WaitError>>)
        ensures
            r == self.spec_outcome(),
    {
        match *self {
            SubmitState::Done => Some(Ok(())),
            SubmitState::Failed(e) => Some(Err(e)),
            _ => None,
        }
    }
}

/// Reliable, retrying executor over a pool of endpoints.
#[derive(Debug)]
pub struct RestApiTransactionExecutor {
    rest_clients: Vec<Endpoint>,
    max_retries: usize,
    retry_after: TimeSpan,
}

impl View for RestApiTransactionExecutor {
    type V = ExecutorView;

    closed spec fn view(&self) -> ExecutorView {
        ExecutorView {
            endpoints: Seq::new(
                self.rest_clients@.len(),
                |i: int| self.rest_clients@[i].path_prefix@,
            ),
            max_retries: self.max_retries as nat,
            retry_after: self.retry_after@,
        }
    }
}

impl RestApiTransactionExecutor {
    #[verifier::type_invariant]
    spec fn inv(self) -> bool {
        &&& self.rest_clients@.len() >= 1
        &&& self.max_retries >= 1
        &&& forall|i: int| 0 <= i < self.rest_clients@.len() ==> (#[trigger] self.rest_clients@[i]).id == i
    }

    /// An executor over the endpoints named `path_prefixes`, in that order,
    /// that allows `max_retries` attempts of `retry_after` each.
    ///
    /// `None` when the pool is empty or no attempt is allowed.
    pub fn new(path_prefixes: Vec<String>, max_retries: usize, retry_after: TimeSpan) -> (r:
        Option<RestApiTransactionExecutor>)
        ensures
            r is Some <==> path_prefixes@.len() >= 1 && max_retries >= 1,
            r matches Some(e) ==> e@.valid() && e@ == (ExecutorView {
                endpoints: Seq::new(path_prefixes@.len(), |i: int| path_prefixes@[i]@),
                max_retries: max_retries as nat,
                retry_after: retry_after@,
            }),
    {
        if path_prefixes.len() == 0 || max_retries == 0 {
            return None;
        }
        let mut rest_clients: Vec<Endpoint> = Vec::new();
        let mut i: usize = 0;
        while i < path_prefixes.len()
            invariant
                i <= path_prefixes@.len(),
                rest_clients@.len() == i,
                forall|k: int|
                    0 <= k < i ==> (#[trigger] rest_clients@[k]).id == k && rest_clients@[k].path_prefix@
                        == path_prefixes@[k]@,
            decreases path_prefixes@.len() - i,
        {
            rest_clients.push(Endpoint { id: i, path_prefix: path_prefixes[i].clone() });
            i = i + 1;
        }
        let executor = RestApiTransactionExecutor { rest_clients, max_retries, retry_after };
        assert(executor@.endpoints =~= Seq::new(path_prefixes@.len(), |i: int| path_prefixes@[i]@));
        Some(executor)
    }

    /// The pool, in order.
    pub fn rest_clients(&self) -> (r: &Vec<Endpoint>)
        ensures
            r@.len() == self@.endpoints.len(),
            forall|i: int|
                0 <= i < r@.len() ==> (#[trigger] r@[i]).id == i && r@[i].path_prefix@
                    == self@.endpoints[i],
    {
        proof {
            use_type_invariant(self);
        }
        &self.rest_clients
    }

    /// The number of attempts allowed for each transaction.
    pub fn max_retries(&self) -> (r: usize)
        ensures
            r == self@.max_retries,
            r >= 1,
    {
        proof {
            use_type_invariant(self);
        }
        self.max_retries
    }

    /// The time allowed for each attempt.
    pub fn retry_after(&self) -> (r: TimeSpan)
        ensures
            r@ == self@.retry_after,
    {
        self.retry_after
    }

    /// An endpoint of the pool, picked by chance.
    pub fn random_rest_client(&self) -> (r: &Endpoint)
        ensures
            self@.valid(),
            r.id < self@.endpoints.len(),
            r.path_prefix@ == self@.endpoints[r.id as int],
    {
        proof {
            use_type_invariant(self);
        }
        let r = select_random(self.rest_clients.as_slice());
        proof {
            let i = choose|i: int| 0 <= i < self.rest_clients@.len() && self.rest_clients@[i] == *r;
            assert(self.rest_clients@[i].id == i);
        }
        r
    }

    /// The endpoint chosen for `sender` in attempt `attempt` of the run with
    /// seed `run_seed`.
    ///
    /// The choice is a function of these three and of the length of the
    /// pool: asked again, the executor names the same endpoint.
    pub fn seeded_rest_client(&self, attempt: usize, run_seed: u64, sender: &[u8; 32]) -> (r:
        &Endpoint)
        ensures
            self@.valid(),
            r.id == self@.chosen(attempt, run_seed, sender@),
            r.id < self@.endpoints.len(),
            r.path_prefix@ == self@.chosen_name(attempt, run_seed, sender@),
    {
        proof {
            use_type_invariant(self);
        }
        let r = select(self.rest_clients.as_slice(), attempt, run_seed, sender);
        proof {
            let k = selected_index(self.rest_clients@.len(), attempt, run_seed, sender@) as int;
            assert(self.rest_clients@[k].id == k);
        }
        r
    }

    /// What to do for `txn` in `state`, in the run with seed `run_seed`.
    ///
    /// An attempt goes to the endpoint chosen for its round and gets the
    /// executor's time per attempt. The last wait goes to an endpoint picked
    /// by chance. At the end of the machine nothing is left to do.
    pub fn next_action(&self, state: SubmitState, txn: &SignedTransaction, run_seed: u64) -> (r:
        Action)
        ensures
            self@.valid(),
            match state {
                SubmitState::Attempting(i) => {
                    &&& r is SubmitAndWait
                    &&& r->SubmitAndWait_endpoint == self@.chosen(i, run_seed, txn.sender@)
                    &&& r->SubmitAndWait_endpoint < self@.endpoints.len()
                    &&& r->wait_budget@ == self@.retry_after
                },
                SubmitState::FallbackWait => r is FallbackWait && r->FallbackWait_endpoint
                    < self@.endpoints.len(),
                SubmitState::Done => r == Action::Stop,
                SubmitState::Failed(_) => r == Action::Stop,
            },
    {
        proof {
            use_type_invariant(self);
        }
        match state {
            SubmitState::Attempting(i) => {
                let endpoint = self.seeded_rest_client(i, run_seed, &txn.sender);
                Action::SubmitAndWait { endpoint: endpoint.id, wait_budget: self.retry_after }
            },
            SubmitState::FallbackWait => {
                let endpoint = self.random_rest_client();
                Action::FallbackWait { endpoint: endpoint.id }
            },
            SubmitState::Done => Action::Stop,
            SubmitState::Failed(_) => Action::Stop,
        }
    }

    /// Takes the report of attempt `attempt`, made at the endpoint named
    /// `endpoint`: counts what it reports into `counters` and gives the state
    /// that follows.
    pub fn finish_attempt(
        &self,
        attempt: usize,
        endpoint: &String,
        report: AttemptReport,
        counters: &mut CounterState,
    ) -> (next: SubmitState)
        requires
            old(counters).well_formed(),
        ensures
            self@.valid(),
            final(counters).well_formed(),
            next == next_state(
                self@.max_retries,
                SubmitState::Attempting(attempt),
                Event::AttemptFinished(report),
            ),
            final(counters)@ == tally_attempt(old(counters)@, attempt, endpoint@, report),
    {
        proof {
            use_type_invariant(self);
        }
        if report.failed_submit {
            counters.record_submit_failure(attempt, endpoint);
        }
        if report.failed_wait {
            counters.record_wait_failure(attempt, endpoint);
        }
        match report.result {
            Ok(_) => {
                counters.record_success(Some(endpoint));
                SubmitState::Done
            },
            Err(_) => {
                if attempt < self.max_retries - 1 {
                    SubmitState::Attempting(attempt + 1)
                } else {
                    SubmitState::FallbackWait
                }
            },
        }
    }

    /// Takes `event` for `txn` in `state`: counts what the event reports
    /// into `counters` and gives the state that follows. The report of an
    /// attempt is counted for the endpoint chosen for that attempt.
    pub fn step(
        &self,
        state: SubmitState,
        txn: &SignedTransaction,
        run_seed: u64,
        event: Event,
        counters: &mut CounterState,
    ) -> (next: SubmitState)
        requires
            old(counters).well_formed(),
        ensures
            self@.valid(),
            final(counters).well_formed(),
            next == next_state(self@.max_retries, state, event),
            final(counters)@ == self@.next_counters(old(counters)@, state, *txn, run_seed, event),
    {
        proof {
            use_type_invariant(self);
        }
        match (state, event) {
            (SubmitState::Attempting(i), Event::AttemptFinished(report)) => {
                let endpoint = self.seeded_rest_client(i, run_seed, &txn.sender);
                self.finish_attempt(i, &endpoint.path_prefix, report, counters)
            },
            (SubmitState::FallbackWait, Event::FallbackFinished(result)) => {
                match result {
                    Ok(_) => {
                        counters.record_success(None);
                        SubmitState::Done
                    },
                    Err(e) => SubmitState::Failed(e),
                }
            },
            _ => state,
        }
    }
}

impl TransactionExecutor for RestApiTransactionExecutor {
    /// One bucket per attempt, every endpoint of the pool tracked.
    open spec fn fresh_counters(&self) -> CounterView {
        self@.fresh_counters()
    }

    fn create_counter_state(&self) -> (r: CounterState)
        ensures
            self@.valid(),
            r@.submit_failures.len() == self@.max_retries,
            r@.wait_failures.len() == self@.max_retries,
    {
        proof {
            use_type_invariant(self);
        }
        let mut counters = CounterState::zeroed(self.max_retries);
        assert(self@.endpoints.take(0) == Seq::<Seq<char>>::empty());
        let mut i: usize = 0;
        while i < self.rest_clients.len()
            invariant
                i <= self.rest_clients@.len(),
                counters.well_formed(),
                self@.endpoints.len() == self.rest_clients@.len(),
                forall|k: int|
                    0 <= k < self.rest_clients@.len() ==> self@.endpoints[k]
                        == (#[trigger] self.rest_clients@[k]).path_prefix@,
                counters@ == CounterView::fresh(self@.max_retries, self@.endpoints.take(i as int)),
            decreases self.rest_clients@.len() - i,
        {
            proof {
                CounterView::lemma_fresh_with_endpoint(
                    self@.max_retries,
                    self@.endpoints.take(i as int),
                    self@.endpoints[i as int],
                );
                assert(self@.endpoints.take(i as int).push(self@.endpoints[i as int])
                    == self@.endpoints.take(i + 1));
            }
            counters.track_endpoint(self.rest_clients[i].path_prefix.clone());
            i = i + 1;
        }
        assert(self@.endpoints.take(i as int) == self@.endpoints);
        counters
    }
}

} // verus!
