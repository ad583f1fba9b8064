//! What the executors read of a transaction.

use vstd::prelude::*;

verus! {

/// A signed transaction, reduced to what submission and confirmation need.
///
/// The payload and the signature stay with whoever built the transaction;
/// the executors decide by these four values alone.
#[derive(Clone, Copy, Debug, PartialEq, Eq)]
pub struct SignedTransaction {
    /// The address of the account that sends the transaction.
    pub sender: [u8; 32],
    /// The sender's sequence number that the transaction carries.
    pub sequence_number: u64,
    /// When the transaction expires, in seconds since the Unix epoch.
    pub expiration_timestamp_secs: u64,
    /// The hash under which the ledger reports the transaction as committed.
    pub committed_hash: [u8; 32],
}

} // verus!
