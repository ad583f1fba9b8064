//! The executor that feeds a local ledger.
//!
//! It hands a whole batch to the block pipeline at once, closed by one
//! checkpoint marker, and then watches the senders' sequence numbers until
//! each has reached the number of its transaction. It neither chooses an
//! endpoint nor retries, and it waits for as long as it takes.

use crate::timespan::TimeSpan;
use crate::counters::{CounterState, CounterView};
use crate::executor::{LookupError, TransactionExecutor};
use crate::transaction::SignedTransaction;
use vstd::prelude::*;

verus! {

/// The pause between two looks at a sender's sequence number, in
/// milliseconds.
pub const POLL_INTERVAL_MILLIS: u64 = 10;

/// One item of a block handed to the pipeline.
#[derive(Clone, Copy, Debug, PartialEq, Eq)]
pub enum BlockItem {
    /// A transaction of the batch.
    UserTransaction(SignedTransaction),
    /// The marker that closes the block, with the identifier given to it.
    StateCheckpoint([u8; 32]),
}

/// Where the confirmation of a batch stands.
#[derive(Clone, Copy, Debug, PartialEq, Eq, Structural)]
pub enum ConfirmState {
    /// The sequence number of the sender of transaction `.0` is to be looked
    /// up.
    Querying(usize),
    /// The sender of transaction `.0` has not come far enough: a pause is
    /// due before the next look.
    Sleeping(usize),
    /// Every sender has reached the number of its transaction.
    Confirmed,
    /// A look-up failed, with this error.
    Failed(LookupError),
}

/// What the caller reports back while a batch is confirmed.
#[derive(Clone, Copy, Debug, PartialEq, Eq)]
pub enum PollEvent {
    /// The look-up that was asked for gave this.
    SequenceNumber(Result<u64, LookupError>),
    /// The pause that was asked for is over.
    Slept,
}

/// What the caller is asked to do next while a batch is confirmed.
#[derive(Clone, Copy, Debug, PartialEq, Eq)]
pub enum PollAction {
    /// Look up the sequence number that the local ledger has for this
    /// account.
    Query { sender: [u8; 32] },
    /// Pause for this long.
    Sleep { interval: TimeSpan },
    /// Nothing is left to do.
    Stop,
}

/// The block for `txns`: its transactions in order, then one checkpoint
/// marker with the identifier `checkpoint`.
pub open spec fn block_of(txns: Seq<SignedTransaction>, checkpoint: [u8; 32]) -> Seq<BlockItem> {
    Seq::new(txns.len(), |i: int| BlockItem::UserTransaction(txns[i])).push(
        BlockItem::StateCheckpoint(checkpoint),
    )
}

/// The state in which the confirmation of `count` transactions starts.
pub open spec fn first_confirm_state(count: nat) -> ConfirmState {
    if count == 0 {
        ConfirmState::Confirmed
    } else {
        ConfirmState::Querying(0)
    }
}

/// The state that follows `state` on `event` while `txns` are confirmed.
///
/// A sender whose sequence number is still below the number of its
/// transaction is looked up again after a pause. One that has reached it
/// gives way to the next transaction, and the last one to the end. A failed
/// look-up ends the confirmation. An event that does not answer what the
/// state asked for changes nothing.
pub open spec fn next_confirm_state(
    txns: Seq<SignedTransaction>,
    state: ConfirmState,
    event: PollEvent,
) -> ConfirmState {
    match (state, event) {
        (ConfirmState::Querying(k), PollEvent::SequenceNumber(answer)) => {
            if k >= txns.len() {
                ConfirmState::Confirmed
            } else {
                match answer {
                    Err(e) => ConfirmState::Failed(e),
                    Ok(seen) => {
                        if txns[k as int].sequence_number > seen {
                            ConfirmState::Sleeping(k)
                        } else if k + 1 < txns.len() {
                            ConfirmState::Querying((k + 1) as usize)
                        } else {
                            ConfirmState::Confirmed
                        }
                    },
                }
            }
        },
        (ConfirmState::Sleeping(k), PollEvent::Slept) => ConfirmState::Querying(k),
        _ => state,
    }
}

/// Executor that drives a local ledger, for fast set-up of a benchmark.
#[derive(Clone, Copy, Debug, PartialEq, Eq, Structural)]
pub struct DbGenInitTransactionExecutor {}

impl DbGenInitTransactionExecutor {
    /// The block to hand to the pipeline for `txns`: the transactions in
    /// order, then one checkpoint marker with the identifier `checkpoint`.
    pub fn package_block(&self, txns: &[SignedTransaction], checkpoint: [u8; 32]) -> (block: Vec<
        BlockItem,
    >)
        ensures
            block@ == block_of(txns@, checkpoint),
    {
        let mut block: Vec<BlockItem> = Vec::new();
        let mut i: usize = 0;
        while i < txns.len()
            invariant
                i <= txns@.len(),
                block@ == Seq::new(i as nat, |k: int| BlockItem::UserTransaction(txns@[k])),
            decreases txns@.len() - i,
        {
            block.push(BlockItem::UserTransaction(txns[i]));
            i = i + 1;
        }
        block.push(BlockItem::StateCheckpoint(checkpoint));
        block
    }

    /// The state in which the confirmation of `txns` starts.
    pub fn start_confirming(&self, txns: &[SignedTransaction]) -> (r: ConfirmState)
        ensures
            r == first_confirm_state(txns@.len()),
    {
        if txns.len() == 0 {
            ConfirmState::Confirmed
        } else {
            ConfirmState::Querying(0)
        }
    }

    /// What to do in `state` while `txns` are confirmed.
    pub fn poll_action(&self, txns: &[SignedTransaction], state: ConfirmState) -> (r: PollAction)
        ensures
            match state {
                ConfirmState::Querying(k) => if k < txns@.len() {
                    r == (PollAction::Query { sender: txns@[k as int].sender })
                } else {
                    r == PollAction::Stop
                },
                ConfirmState::Sleeping(_) => r is Sleep && r->interval@ == POLL_INTERVAL_MILLIS
                    * 1_000_000,
                ConfirmState::Confirmed => r == PollAction::Stop,
                ConfirmState::Failed(_) => r == PollAction::Stop,
            },
    {
        match state {
            ConfirmState::Querying(k) => {
                if k < txns.len() {
                    PollAction::Query { sender: txns[k].sender }
                } else {
                    PollAction::Stop
                }
            },
            ConfirmState::Sleeping(_) => PollAction::Sleep {
                interval: TimeSpan::from_millis(POLL_INTERVAL_MILLIS),
            },
            ConfirmState::Confirmed => PollAction::Stop,
            ConfirmState::Failed(_) => PollAction::Stop,
        }
    }

    /// Takes `event` in `state` while `txns` are confirmed, and gives the
    /// state that follows.
    pub fn poll_step(&self, txns: &[SignedTransaction], state: ConfirmState, event: PollEvent) -> (r:
        ConfirmState)
        ensures
            r == next_confirm_state(txns@, state, event),
    {
        match (state, event) {
            (ConfirmState::Querying(k), PollEvent::SequenceNumber(answer)) => {
                if k >= txns.len() {
                    ConfirmState::Confirmed
                } else {
                    match answer {
                        Err(e) => ConfirmState::Failed(e),
                        Ok(seen) => {
                            if txns[k].sequence_number > seen {
                                ConfirmState::Sleeping(k)
                            } else if k < txns.len() - 1 {
                                ConfirmState::Querying(k + 1)
                            } else {
                                ConfirmState::Confirmed
                            }
                        },
                    }
                }
            },
            (ConfirmState::Sleeping(k), PollEvent::Slept) => ConfirmState::Querying(k),
            _ => state,
        }
    }
}

impl TransactionExecutor for DbGenInitTransactionExecutor {
    /// A single attempt bucket and no endpoint: this executor neither
    /// retries nor chooses.
    open spec fn fresh_counters(&self) -> CounterView {
        CounterView::fresh(1, Seq::empty())
    }

    fn create_counter_state(&self) -> (r: CounterState) {
        CounterState::zeroed(1)
    }
}

} // verus!
