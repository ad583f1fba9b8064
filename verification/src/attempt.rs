//! One attempt at one endpoint: submit, then wait for the commit.
//!
//! The attempt goes on to the wait whatever became of the submission, since
//! the ledger may commit a transaction whose submission looked failed from
//! outside. Only the wait decides whether the attempt succeeded.

use crate::timespan::TimeSpan;
use crate::transaction::SignedTransaction;
use vstd::prelude::*;

verus! {

/// A submission that the transport did not get through.
#[derive(Clone, Copy, Debug, PartialEq, Eq, Structural)]
pub enum SubmitError {
    /// The endpoint refused the transaction.
    Rejected,
    /// The call did not reach the endpoint, or no answer came back.
    Undelivered,
}

/// A wait that did not see the transaction committed.
#[derive(Clone, Copy, Debug, PartialEq, Eq, Structural)]
pub enum WaitError {
    /// The time allowed ran out first.
    Timeout,
    /// The ledger reported the transaction as refused.
    Rejected,
}

/// What the transport is asked to wait for.
#[derive(Clone, Copy, Debug, PartialEq, Eq)]
pub struct WaitRequest {
    /// The hash under which the commit is looked up.
    pub hash: [u8; 32],
    /// When the transaction expires, in seconds since the Unix epoch; no wait
    /// goes on past it.
    pub expiration_timestamp_secs: u64,
    /// How long to wait at most.
    pub timeout: TimeSpan,
}

/// How one attempt ended.
#[derive(Clone, Copy, Debug, PartialEq, Eq)]
pub struct AttemptReport {
    /// Whether the transaction was seen committed, and if not, why.
    pub result: Result<(), WaitError>,
    /// The submission failed.
    pub failed_submit: bool,
    /// The wait failed.
    pub failed_wait: bool,
}

/// What is left of a budget of `budget` nanoseconds after `elapsed`
/// nanoseconds: the difference, and never less than nothing.
pub open spec fn remaining(budget: nat, elapsed: nat) -> nat {
    if budget >= elapsed {
        (budget - elapsed) as nat
    } else {
        0
    }
}

/// The wait that follows the submission of `txn`, whatever became of the
/// submission: for the transaction's hash, up to its expiration, and for what
/// the submission has left of `wait_budget` after taking `elapsed`.
pub fn wait_request(txn: &SignedTransaction, wait_budget: TimeSpan, elapsed: TimeSpan) -> (r:
    WaitRequest)
    ensures
        r.hash == txn.committed_hash,
        r.expiration_timestamp_secs == txn.expiration_timestamp_secs,
        r.timeout@ == remaining(wait_budget@, elapsed@),
{
    WaitRequest {
        hash: txn.committed_hash,
        expiration_timestamp_secs: txn.expiration_timestamp_secs,
        timeout: wait_budget.saturating_sub(elapsed),
    }
}

/// The report of an attempt whose submission ended as `submit` and whose
/// wait ended as `wait`.
///
/// The attempt succeeded exactly when the wait did. Each failure is flagged
/// on its own, so that a failed submission is counted even where the
/// transaction was committed after all.
pub fn attempt_report(submit: Result<(), SubmitError>, wait: Result<(), WaitError>) -> (r:
    AttemptReport)
    ensures
        r.result == wait,
        r.failed_submit == (submit is Err),
        r.failed_wait == (wait is Err),
{
    let failed_submit = match submit {
        Ok(_) => false,
        Err(_) => true,
    };
    let failed_wait = match wait {
        Ok(_) => false,
        Err(_) => true,
    };
    AttemptReport { result: wait, failed_submit, failed_wait }
}

} // verus!
