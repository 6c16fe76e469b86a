//! Threshold (M-of-N) approval of privileged launchpad operations.
//!
//! A [`ledger::QuorumLedger`] collects approvals from a fixed set of approvers
//! for one exact proposal at a time; the gated operation in [`set_fees`] takes
//! effect exactly once, on the approval that reaches the threshold.

pub mod bytes;
pub mod error;
pub mod fees;
pub mod gate;
pub mod ledger;
pub mod set_fees;
