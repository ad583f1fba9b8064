//! Reliable submission of signed transactions to a ledger network.
//!
//! The crate holds the decisions of two executors: one that submits over a
//! pool of endpoints, retrying and counting failures, and one that feeds a
//! local ledger and confirms by watching sequence numbers. Neither performs
//! any I/O: each is a state machine that names the next action and consumes
//! its outcome.
//!
//! - [`reliable`]: the retrying executor and the machine it runs for each
//!   transaction; [`attempt`]: one attempt of it; [`selector`]: which
//!   endpoint an attempt goes to; [`batch`]: how a batch ends.
//! - [`local`]: the executor for a local ledger.
//! - [`counters`]: the counters that both fill, and [`executor`]: what both
//!   offer to a driver.
//! - [`laws`]: what is proved of whole runs.

pub mod attempt;
pub mod batch;
pub mod counters;
pub mod executor;
pub mod laws;
pub mod local;
pub mod reliable;
pub mod selector;
pub mod timespan;
pub mod transaction;
