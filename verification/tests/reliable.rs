use txn_executor::attempt::{attempt_report, AttemptReport, SubmitError, WaitError};
use txn_executor::batch::conclude;
use txn_executor::timespan::TimeSpan;
use txn_executor::counters::{CounterState, EndpointTally};
use txn_executor::executor::TransactionExecutor;
use txn_executor::reliable::{Action, Event, RestApiTransactionExecutor, SubmitState};
use txn_executor::selector::select;
use txn_executor::transaction::SignedTransaction;

fn names(count: usize) -> Vec<String> {
    (0..count).map(|i| format!("http://node{i}:8080/v1")).collect()
}

fn executor(endpoints: usize, max_retries: usize) -> RestApiTransactionExecutor {
    RestApiTransactionExecutor::new(names(endpoints), max_retries, TimeSpan::from_millis(30_000))
        .unwrap()
}

fn txn(sender: u8, sequence_number: u64) -> SignedTransaction {
    SignedTransaction {
        sender: [sender; 32],
        sequence_number,
        expiration_timestamp_secs: 1_700_000_000 + sequence_number,
        committed_hash: [sender ^ 0x5a; 32],
    }
}

fn committed() -> AttemptReport {
    attempt_report(Ok(()), Ok(()))
}

fn unreachable_endpoint() -> AttemptReport {
    attempt_report(Err(SubmitError::Undelivered), Err(WaitError::Timeout))
}

/// Runs the machine for one transaction against a script: one report per
/// attempt, then the answer of the last wait if the machine gets there.
fn run(
    executor: &RestApiTransactionExecutor,
    txn: &SignedTransaction,
    run_seed: u64,
    attempts: &[AttemptReport],
    last_wait: Result<(), WaitError>,
    counters: &mut CounterState,
) -> SubmitState {
    let mut state = SubmitState::start();
    let mut next_attempt = 0;
    loop {
        match executor.next_action(state, txn, run_seed) {
            Action::SubmitAndWait { .. } => {
                let report = attempts[next_attempt];
                next_attempt += 1;
                state = executor.step(state, txn, run_seed, Event::AttemptFinished(report), counters);
            }
            Action::FallbackWait { .. } => {
                state =
                    executor.step(state, txn, run_seed, Event::FallbackFinished(last_wait), counters);
            }
            Action::Stop => return state,
        }
    }
}

fn tally_sum(executor: &RestApiTransactionExecutor, counters: &CounterState) -> EndpointTally {
    let mut sum = EndpointTally { successes: 0, submit_failures: 0, wait_failures: 0 };
    for endpoint in executor.rest_clients() {
        let t = counters.by_client(&endpoint.path_prefix).unwrap();
        sum.successes += t.successes;
        sum.submit_failures += t.submit_failures;
        sum.wait_failures += t.wait_failures;
    }
    sum
}

#[test]
fn executor_needs_an_endpoint_and_an_attempt() {
    let budget = TimeSpan::from_millis(1);
    assert!(RestApiTransactionExecutor::new(vec![], 3, budget).is_none());
    assert!(RestApiTransactionExecutor::new(names(2), 0, budget).is_none());
    assert!(RestApiTransactionExecutor::new(vec![], 0, budget).is_none());
    assert!(RestApiTransactionExecutor::new(names(1), 1, budget).is_some());
}

#[test]
fn executor_keeps_its_configuration() {
    let e = RestApiTransactionExecutor::new(names(3), 5, TimeSpan::from_millis(1_500)).unwrap();
    assert_eq!(e.max_retries(), 5);
    assert_eq!(e.retry_after(), TimeSpan::new(1, 500_000_000).unwrap());
    let pool = e.rest_clients();
    assert_eq!(pool.len(), 3);
    for (i, endpoint) in pool.iter().enumerate() {
        assert_eq!(endpoint.id, i);
        assert_eq!(endpoint.path_prefix, names(3)[i]);
    }
}

#[test]
fn counter_state_has_one_bucket_per_attempt_and_every_endpoint() {
    for max_retries in [1usize, 2, 7] {
        let e = executor(3, max_retries);
        let c = e.create_counter_state();
        assert_eq!(c.buckets(), max_retries);
        assert_eq!(c.submit_failures(), vec![0; max_retries]);
        assert_eq!(c.wait_failures(), vec![0; max_retries]);
        assert_eq!(c.successes(), 0);
        for name in names(3) {
            assert_eq!(
                c.by_client(&name),
                Some(EndpointTally { successes: 0, submit_failures: 0, wait_failures: 0 })
            );
        }
        assert_eq!(c.by_client(&"http://other/v1".to_string()), None);
    }
}

#[test]
fn counter_state_tracks_an_endpoint_named_twice_once() {
    let e = RestApiTransactionExecutor::new(
        vec!["same".to_string(), "same".to_string()],
        1,
        TimeSpan::zero(),
    )
    .unwrap();
    let mut c = e.create_counter_state();
    let t = txn(1, 0);
    let state = run(&e, &t, 0, &[committed()], Ok(()), &mut c);
    assert_eq!(state, SubmitState::Done);
    assert_eq!(
        c.by_client(&"same".to_string()),
        Some(EndpointTally { successes: 1, submit_failures: 0, wait_failures: 0 })
    );
}

#[test]
fn first_action_is_an_attempt_at_the_chosen_endpoint() {
    let e = executor(5, 3);
    let pool: Vec<usize> = (0..5).collect();
    for sender in 0..20u8 {
        let t = txn(sender, 0);
        let action = e.next_action(SubmitState::start(), &t, 77);
        assert_eq!(
            action,
            Action::SubmitAndWait {
                endpoint: *select(&pool, 0, 77, &t.sender),
                wait_budget: TimeSpan::from_millis(30_000),
            }
        );
    }
}

#[test]
fn same_sender_and_round_go_to_the_same_endpoint() {
    let e = executor(7, 4);
    for attempt in 0..4usize {
        let first = e.seeded_rest_client(attempt, 1234, &[9u8; 32]).id;
        for sequence_number in 0..10u64 {
            let t = txn(9, sequence_number);
            match e.next_action(SubmitState::Attempting(attempt), &t, 1234) {
                Action::SubmitAndWait { endpoint, .. } => assert_eq!(endpoint, first),
                other => panic!("unexpected action {other:?}"),
            }
        }
    }
}

#[test]
fn seeded_client_has_its_place_and_name() {
    let e = executor(4, 2);
    for attempt in 0..6usize {
        let endpoint = e.seeded_rest_client(attempt, 5, &[1u8; 32]);
        assert!(endpoint.id < 4);
        assert_eq!(endpoint.path_prefix, names(4)[endpoint.id]);
    }
    assert_eq!(executor(3, 1).seeded_rest_client(0, 42, &[7u8; 32]).id, 1);
    assert_eq!(executor(3, 1).seeded_rest_client(2, 42, &[7u8; 32]).id, 2);
    assert_eq!(executor(3, 1).seeded_rest_client(5, 42, &[7u8; 32]).id, 0);
}

#[test]
fn random_client_is_one_of_the_pool() {
    let e = executor(3, 1);
    for _ in 0..100 {
        let endpoint = e.random_rest_client();
        assert!(endpoint.id < 3);
        assert_eq!(endpoint.path_prefix, names(3)[endpoint.id]);
    }
}

#[test]
fn five_senders_three_endpoints_all_first_attempts_succeed() {
    let e = executor(3, 2);
    let mut counters = e.create_counter_state();
    let txns: Vec<SignedTransaction> = (0..5u8).map(|s| txn(s, 0)).collect();
    let mut outcomes = Vec::new();
    for t in &txns {
        let state = run(&e, t, 2024, &[committed()], Ok(()), &mut counters);
        assert_eq!(state, SubmitState::Done);
        outcomes.push(state.outcome().unwrap());
    }
    assert!(conclude(&outcomes, &counters).is_ok());
    assert_eq!(counters.successes(), 5);
    assert_eq!(counters.submit_failures(), vec![0, 0]);
    assert_eq!(counters.wait_failures(), vec![0, 0]);
    assert_eq!(
        tally_sum(&e, &counters),
        EndpointTally { successes: 5, submit_failures: 0, wait_failures: 0 }
    );
}

#[test]
fn one_endpoint_two_failed_rounds_then_success() {
    let e = executor(1, 3);
    let mut counters = e.create_counter_state();
    let t = txn(1, 0);
    let script = [unreachable_endpoint(), unreachable_endpoint(), committed()];
    let state = run(&e, &t, 7, &script, Err(WaitError::Timeout), &mut counters);
    assert_eq!(state, SubmitState::Done);
    assert_eq!(counters.submit_failures(), vec![1, 1, 0]);
    assert_eq!(counters.wait_failures(), vec![1, 1, 0]);
    assert_eq!(counters.successes(), 1);
    assert_eq!(
        counters.by_client(&names(1)[0]),
        Some(EndpointTally { successes: 1, submit_failures: 2, wait_failures: 2 })
    );
}

#[test]
fn failed_submission_is_counted_even_if_the_wait_succeeds() {
    let e = executor(1, 3);
    let mut counters = e.create_counter_state();
    let t = txn(1, 0);
    let report = attempt_report(Err(SubmitError::Rejected), Ok(()));
    let state = run(&e, &t, 7, &[report], Err(WaitError::Timeout), &mut counters);
    assert_eq!(state, SubmitState::Done);
    assert_eq!(counters.submit_failures(), vec![1, 0, 0]);
    assert_eq!(counters.wait_failures(), vec![0, 0, 0]);
    assert_eq!(counters.successes(), 1);
}

#[test]
fn wait_failure_alone_leads_to_the_next_attempt() {
    let e = executor(2, 2);
    let mut counters = e.create_counter_state();
    let t = txn(4, 1);
    let report = attempt_report(Ok(()), Err(WaitError::Rejected));
    let state = e.step(SubmitState::start(), &t, 1, Event::AttemptFinished(report), &mut counters);
    assert_eq!(state, SubmitState::Attempting(1));
    assert_eq!(counters.submit_failures(), vec![0, 0]);
    assert_eq!(counters.wait_failures(), vec![1, 0]);
    assert_eq!(counters.successes(), 0);
}

#[test]
fn last_failed_attempt_leads_to_the_last_wait() {
    let e = executor(2, 2);
    let mut counters = e.create_counter_state();
    let t = txn(4, 1);
    let state = e.step(
        SubmitState::Attempting(1),
        &t,
        1,
        Event::AttemptFinished(unreachable_endpoint()),
        &mut counters,
    );
    assert_eq!(state, SubmitState::FallbackWait);
    match e.next_action(state, &t, 1) {
        Action::FallbackWait { endpoint } => assert!(endpoint < 2),
        other => panic!("unexpected action {other:?}"),
    }
    assert_eq!(counters.submit_failures(), vec![0, 1]);
    assert_eq!(counters.wait_failures(), vec![0, 1]);
}

#[test]
fn unreachable_endpoint_then_last_wait_sees_the_commit() {
    let e = executor(1, 3);
    let mut counters = e.create_counter_state();
    let t = txn(2, 5);
    let script = [unreachable_endpoint(); 3];
    let state = run(&e, &t, 11, &script, Ok(()), &mut counters);
    assert_eq!(state, SubmitState::Done);
    assert_eq!(state.outcome(), Some(Ok(())));
    assert_eq!(counters.submit_failures(), vec![1, 1, 1]);
    assert_eq!(counters.wait_failures(), vec![1, 1, 1]);
    assert_eq!(counters.successes(), 1);
    assert_eq!(
        counters.by_client(&names(1)[0]),
        Some(EndpointTally { successes: 0, submit_failures: 3, wait_failures: 3 })
    );
    assert!(conclude(&[state.outcome().unwrap()], &counters).is_ok());
}

#[test]
fn last_wait_fails_and_so_does_the_batch() {
    let e = executor(2, 2);
    let mut counters = e.create_counter_state();
    let txns: Vec<SignedTransaction> = (0..4u8).map(|s| txn(s, 0)).collect();
    let mut outcomes = Vec::new();
    for (i, t) in txns.iter().enumerate() {
        let state = if i == 2 {
            run(&e, t, 3, &[unreachable_endpoint(); 2], Err(WaitError::Rejected), &mut counters)
        } else {
            run(&e, t, 3, &[committed()], Ok(()), &mut counters)
        };
        outcomes.push(state.outcome().unwrap());
    }
    assert_eq!(outcomes[2], Err(WaitError::Rejected));
    let error = conclude(&outcomes, &counters).unwrap_err();
    assert_eq!(error.batch_size, 4);
    assert_eq!(error.first_failed, 2);
    assert_eq!(error.cause, WaitError::Rejected);
    assert_eq!(error.counters.successes(), 3);
    assert_eq!(error.counters.submit_failures(), vec![1, 1]);
    assert_eq!(error.counters.wait_failures(), vec![1, 1]);
}

#[test]
fn last_wait_timeout_is_the_error_of_the_submission() {
    let e = executor(1, 1);
    let mut counters = e.create_counter_state();
    let t = txn(8, 0);
    let state = run(&e, &t, 0, &[unreachable_endpoint()], Err(WaitError::Timeout), &mut counters);
    assert_eq!(state, SubmitState::Failed(WaitError::Timeout));
    assert_eq!(state.outcome(), Some(Err(WaitError::Timeout)));
    assert_eq!(counters.successes(), 0);
}

#[test]
fn outcome_is_open_while_the_submission_is_under_way() {
    assert_eq!(SubmitState::Attempting(0).outcome(), None);
    assert_eq!(SubmitState::Attempting(3).outcome(), None);
    assert_eq!(SubmitState::FallbackWait.outcome(), None);
}

#[test]
fn finished_machines_stop_and_ignore_events() {
    let e = executor(2, 2);
    let mut counters = e.create_counter_state();
    let t = txn(1, 1);
    for state in [SubmitState::Done, SubmitState::Failed(WaitError::Timeout)] {
        assert_eq!(e.next_action(state, &t, 0), Action::Stop);
        for event in [
            Event::AttemptFinished(committed()),
            Event::AttemptFinished(unreachable_endpoint()),
            Event::FallbackFinished(Ok(())),
            Event::FallbackFinished(Err(WaitError::Rejected)),
        ] {
            assert_eq!(e.step(state, &t, 0, event, &mut counters), state);
        }
    }
    assert_eq!(counters.successes(), 0);
    assert_eq!(counters.submit_failures(), vec![0, 0]);
    assert_eq!(counters.wait_failures(), vec![0, 0]);
}

#[test]
fn events_that_answer_another_state_change_nothing() {
    let e = executor(2, 2);
    let mut counters = e.create_counter_state();
    let t = txn(1, 1);
    let state = e.step(
        SubmitState::Attempting(0),
        &t,
        0,
        Event::FallbackFinished(Ok(())),
        &mut counters,
    );
    assert_eq!(state, SubmitState::Attempting(0));
    let state = e.step(
        SubmitState::FallbackWait,
        &t,
        0,
        Event::AttemptFinished(committed()),
        &mut counters,
    );
    assert_eq!(state, SubmitState::FallbackWait);
    assert_eq!(counters.successes(), 0);
    assert_eq!(counters.submit_failures(), vec![0, 0]);
}

#[test]
fn attempts_are_counted_for_the_chosen_endpoint() {
    let e = executor(6, 3);
    let mut counters = e.create_counter_state();
    let t = txn(33, 0);
    let mut expected = vec![EndpointTally { successes: 0, submit_failures: 0, wait_failures: 0 }; 6];
    for attempt in 0..2usize {
        let id = e.seeded_rest_client(attempt, 555, &t.sender).id;
        expected[id].submit_failures += 1;
        expected[id].wait_failures += 1;
    }
    let last = e.seeded_rest_client(2, 555, &t.sender).id;
    expected[last].successes += 1;
    let script = [unreachable_endpoint(), unreachable_endpoint(), committed()];
    run(&e, &t, 555, &script, Ok(()), &mut counters);
    for (i, name) in names(6).iter().enumerate() {
        assert_eq!(counters.by_client(name), Some(expected[i]));
    }
}

#[test]
fn shorter_counters_take_later_attempts_in_their_last_bucket() {
    let e = executor(1, 4);
    let mut counters = CounterState::new(2).unwrap();
    let t = txn(1, 0);
    let state = run(&e, &t, 0, &[unreachable_endpoint(); 4], Ok(()), &mut counters);
    assert_eq!(state, SubmitState::Done);
    assert_eq!(counters.submit_failures(), vec![1, 3]);
    assert_eq!(counters.wait_failures(), vec![1, 3]);
    assert_eq!(counters.successes(), 1);
}

#[test]
fn machines_of_a_batch_may_take_turns() {
    let e = executor(3, 2);
    let mut counters = e.create_counter_state();
    let txns: Vec<SignedTransaction> = (0..3u8).map(|s| txn(s, 0)).collect();
    let mut states = vec![SubmitState::start(); 3];
    let fail = Event::AttemptFinished(unreachable_endpoint());
    let succeed = Event::AttemptFinished(committed());
    let steps = [
        (0usize, fail),
        (1, succeed),
        (2, fail),
        (0, fail),
        (2, succeed),
        (0, Event::FallbackFinished(Ok(()))),
    ];
    for (i, event) in steps {
        states[i] = e.step(states[i], &txns[i], 9, event, &mut counters);
    }
    assert_eq!(states, vec![SubmitState::Done; 3]);
    assert_eq!(counters.successes(), 3);
    assert_eq!(counters.submit_failures(), vec![2, 1]);
    assert_eq!(counters.wait_failures(), vec![2, 1]);
    let outcomes: Vec<Result<(), WaitError>> =
        states.iter().map(|s| s.outcome().unwrap()).collect();
    assert!(conclude(&outcomes, &counters).is_ok());
}

#[test]
fn empty_batch_succeeds() {
    let counters = CounterState::new(1).unwrap();
    assert!(conclude(&[], &counters).is_ok());
}

#[test]
fn batch_reports_its_first_failure() {
    let mut counters = CounterState::new(1).unwrap();
    counters.record_success(None);
    let outcomes = [
        Ok(()),
        Err(WaitError::Timeout),
        Ok(()),
        Err(WaitError::Rejected),
    ];
    let error = conclude(&outcomes, &counters).unwrap_err();
    assert_eq!(error.batch_size, 4);
    assert_eq!(error.first_failed, 1);
    assert_eq!(error.cause, WaitError::Timeout);
    assert_eq!(error.counters.successes(), 1);
}

#[test]
fn attempt_report_is_counted_for_the_named_endpoint() {
    let e = executor(3, 3);
    let mut counters = e.create_counter_state();
    let zero = EndpointTally { successes: 0, submit_failures: 0, wait_failures: 0 };

    let next = e.finish_attempt(0, &names(3)[1], unreachable_endpoint(), &mut counters);
    assert_eq!(next, SubmitState::Attempting(1));
    let report = attempt_report(Err(SubmitError::Rejected), Ok(()));
    let next = e.finish_attempt(1, &names(3)[2], report, &mut counters);
    assert_eq!(next, SubmitState::Done);

    assert_eq!(counters.submit_failures(), vec![1, 1, 0]);
    assert_eq!(counters.wait_failures(), vec![1, 0, 0]);
    assert_eq!(counters.successes(), 1);
    assert_eq!(counters.by_client(&names(3)[0]), Some(zero));
    assert_eq!(
        counters.by_client(&names(3)[1]),
        Some(EndpointTally { successes: 0, submit_failures: 1, wait_failures: 1 })
    );
    assert_eq!(
        counters.by_client(&names(3)[2]),
        Some(EndpointTally { successes: 1, submit_failures: 1, wait_failures: 0 })
    );
}

#[test]
fn last_attempt_that_fails_ends_the_attempts() {
    let e = executor(1, 3);
    let mut counters = e.create_counter_state();
    let wait_failed = attempt_report(Ok(()), Err(WaitError::Timeout));
    assert_eq!(e.finish_attempt(1, &names(1)[0], wait_failed, &mut counters), SubmitState::Attempting(2));
    assert_eq!(e.finish_attempt(2, &names(1)[0], wait_failed, &mut counters), SubmitState::FallbackWait);
    assert_eq!(
        e.finish_attempt(usize::MAX, &names(1)[0], wait_failed, &mut counters),
        SubmitState::FallbackWait
    );
    assert_eq!(counters.wait_failures(), vec![0, 1, 2]);
}
