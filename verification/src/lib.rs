//! A bounded, append-only ledger of scored events.
//!
//! Each account owns an ordered history of at most ten score events; two
//! aggregate counters (distinct accounts, total events) stay consistent with
//! the ledger contents across every mutation.

pub mod digest;
pub mod event;
pub mod ledger;
pub mod outcome;
