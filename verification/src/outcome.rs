//! Values reported back to callers: errors, mutation outcomes, status reports
//! and history listings.

use vstd::prelude::*;
use crate::event::User;

verus! {

/// Why a call against the ledger was refused. Failed calls leave the ledger
/// untouched: no partial write is ever observable.
#[derive(Debug, PartialEq, Eq, Structural)]
pub enum LedgerError {
    /// The account's history already holds the full ten events.
    CapacityExceeded,
    /// The account has never recorded an event.
    NotFound,
}

/// The outcome of a successful mutating call: the resource cost the host
/// metered, the account that recorded, and the success flag.
#[derive(Debug)]
pub struct PublishingOutcome {
    pub gas_used: u64,
    pub score_owner: String,
    pub successful_operation: bool,
}

/// A read-only status report: the owner set at construction, the host's
/// clock and storage-size readings, and the two aggregate counters.
#[derive(Debug)]
pub struct ContractState {
    pub owner: String,
    pub timestamp: u64,
    pub size_now: u64,
    pub user_count: u64,
    pub score_count: u64,
}

/// The full, ordered score history of one account.
#[derive(Debug)]
pub struct MyScoreHistory {
    pub scores: Vec<User>,
}

} // verus!
