//! The ledger state machine.
//!
//! A ledger maps account identifiers to bounded, append-only histories of
//! score events, and keeps two aggregate counters — distinct accounts and
//! total events — consistent with those histories across every mutation.
//! Host-supplied facts (caller identity, clock reading, metered resource
//! cost, storage size) enter as plain arguments, so every rule here is
//! checked without any host runtime.

use vstd::prelude::*;
use crate::digest::{digest_of, digest_text};
use crate::event::{events_of, SpecEvent, User};
use crate::outcome::{ContractState, LedgerError, MyScoreHistory, PublishingOutcome};

verus! {

/// The most events one account's history may ever hold.
pub const HISTORY_CAPACITY: usize = 10;

/// Aggregate counters over the whole ledger: how many distinct accounts hold
/// a history, and how many events are stored in total. Updated only as a
/// byproduct of a successful history mutation.
pub struct State {
    pub user_count: u64,
    pub score_count: u64,
}

/// One account's entry: its identifier and its ordered history, oldest
/// event first.
pub struct ScoreRecord {
    pub account_id: String,
    pub scores: Vec<User>,
}

/// The ledger: the owner set once at construction, the per-account entries,
/// and the aggregate counters.
pub struct Contract {
    pub owner_id: String,
    pub records: Vec<ScoreRecord>,
    pub contract_state: State,
}

/// Total number of events stored across the given entries.
pub open spec fn total_events(s: Seq<ScoreRecord>) -> int
    decreases s.len(),
{
    if s.len() == 0 {
        0
    } else {
        total_events(s.drop_last()) + s.last().scores@.len()
    }
}

proof fn lemma_total_events_push(s: Seq<ScoreRecord>, r: ScoreRecord)
    ensures
        total_events(s.push(r)) == total_events(s) + r.scores@.len(),
{
    assert(s.push(r).drop_last() =~= s);
    assert(s.push(r).last() == r);
}

proof fn lemma_total_events_update(s: Seq<ScoreRecord>, i: int, r: ScoreRecord)
    requires
        0 <= i < s.len(),
    ensures
        total_events(s.update(i, r)) == total_events(s) - s[i].scores@.len() + r.scores@.len(),
    decreases s.len(),
{
    let t = s.update(i, r);
    if i == s.len() - 1 {
        assert(t.drop_last() =~= s.drop_last());
        assert(t.last() == r);
    } else {
        assert(t.drop_last() =~= s.drop_last().update(i, r));
        assert(t.last() == s.last());
        lemma_total_events_update(s.drop_last(), i, r);
    }
}

impl Contract {
    /// No two entries name the same account.
    pub open spec fn accounts_unique(self) -> bool {
        forall|i: int, j: int|
            0 <= i < j < self.records@.len()
                ==> self.records@[i].account_id@ != self.records@[j].account_id@
    }

    /// A well-formed ledger: account entries are unique, every history holds
    /// between one and ten events, and the counters agree with the contents —
    /// `user_count` is the number of accounts present and `score_count` is the
    /// total number of events stored.
    pub open spec fn wf(self) -> bool {
        &&& self.accounts_unique()
        &&& forall|i: int|
            0 <= i < self.records@.len()
                ==> 1 <= #[trigger] self.records@[i].scores@.len() <= HISTORY_CAPACITY
        &&& self.contract_state.user_count == self.records@.len()
        &&& self.contract_state.score_count == total_events(self.records@)
    }

    /// Whether the account has recorded at least one event.
    pub open spec fn has_account(self, account: Seq<char>) -> bool {
        exists|i: int|
            0 <= i < self.records@.len() && self.records@[i].account_id@ == account
    }

    /// The index of the account's entry; meaningful when the account is
    /// present and the entries are unique.
    pub open spec fn account_index(self, account: Seq<char>) -> int {
        choose|i: int|
            0 <= i < self.records@.len() && self.records@[i].account_id@ == account
    }

    /// The account's stored history, oldest event first.
    pub open spec fn history(self, account: Seq<char>) -> Seq<SpecEvent> {
        events_of(self.records@[self.account_index(account)].scores@)
    }

    /// The account's stored history, or the empty sequence if it has none.
    pub open spec fn history_or_empty(self, account: Seq<char>) -> Seq<SpecEvent> {
        if self.has_account(account) {
            self.history(account)
        } else {
            Seq::empty()
        }
    }
}

/// In a ledger with unique entries, any entry naming the account is the one
/// the model speaks of.
pub proof fn lemma_account_index_unique(c: Contract, account: Seq<char>, i: int)
    requires
        c.accounts_unique(),
        0 <= i < c.records@.len(),
        c.records@[i].account_id@ == account,
    ensures
        c.has_account(account),
        c.account_index(account) == i,
{
    assert(c.has_account(account));
    let j = c.account_index(account);
    assert(0 <= j < c.records@.len() && c.records@[j].account_id@ == account);
    if i < j {
        assert(c.records@[i].account_id@ != c.records@[j].account_id@);
    } else if j < i {
        assert(c.records@[j].account_id@ != c.records@[i].account_id@);
    }
}

/// Two ledgers with unique entries that agree on every entry naming `a`
/// agree on `a`'s presence and history.
proof fn lemma_other_accounts_agree(c1: Contract, c2: Contract, a: Seq<char>)
    requires
        c1.accounts_unique(),
        c2.accounts_unique(),
        forall|j: int|
            0 <= j < c2.records@.len() && c2.records@[j].account_id@ == a
                ==> j < c1.records@.len() && c2.records@[j] == c1.records@[j],
        forall|j: int|
            0 <= j < c1.records@.len() && c1.records@[j].account_id@ == a
                ==> j < c2.records@.len() && c2.records@[j] == c1.records@[j],
    ensures
        c2.has_account(a) == c1.has_account(a),
        c2.history_or_empty(a) == c1.history_or_empty(a),
{
    if c1.has_account(a) {
        let i = c1.account_index(a);
        assert(0 <= i < c1.records@.len() && c1.records@[i].account_id@ == a);
        assert(c2.records@[i] == c1.records@[i]);
        lemma_account_index_unique(c2, a, i);
        lemma_account_index_unique(c1, a, i);
    } else if c2.has_account(a) {
        let i = choose|i: int|
            0 <= i < c2.records@.len() && c2.records@[i].account_id@ == a;
        assert(c1.records@[i].account_id@ == a);
        assert(false);
    }
}

/// Append-only: a history extended by one event keeps every prior event in
/// its place, unchanged, and adds the new one at the end.
pub proof fn lemma_append_only(before: Seq<SpecEvent>, after: Seq<SpecEvent>, ev: SpecEvent)
    requires
        after == before.push(ev),
    ensures
        after.len() == before.len() + 1,
        forall|i: int| 0 <= i < before.len() ==> after[i] == before[i],
        after.last() == ev,
{
}

/// For every well-formed ledger, the aggregate counters agree with the
/// stored contents: `user_count` equals the number of accounts with a
/// history present, and `score_count` equals the sum of all history lengths.
pub proof fn lemma_counters_consistent(c: Contract)
    requires
        c.wf(),
    ensures
        c.contract_state.user_count == c.records@.len(),
        c.contract_state.score_count == total_events(c.records@),
{
}

/// Every present account's history holds between one and ten events.
pub proof fn lemma_capacity_bound(c: Contract, account: Seq<char>)
    requires
        c.wf(),
        c.has_account(account),
    ensures
        1 <= c.history(account).len() <= HISTORY_CAPACITY,
{
    let i = c.account_index(account);
    assert(0 <= i < c.records@.len() && c.records@[i].account_id@ == account);
    assert(c.history(account).len() == c.records@[i].scores@.len());
}

impl Contract {
    /// Construct a fresh ledger owned by `owner_id`, with no accounts and no
    /// events.
    pub fn new(owner_id: String) -> (r: Contract)
        ensures
            r.wf(),
            r.owner_id == owner_id,
            r.records@.len() == 0,
            r.contract_state.user_count == 0,
            r.contract_state.score_count == 0,
            forall|a: Seq<char>| !r.has_account(a),
    {
        Contract {
            owner_id,
            records: Vec::new(),
            contract_state: State { user_count: 0, score_count: 0 },
        }
    }

    /// Find the entry holding the account's history, if there is one.
    fn find_account(&self, account_id: &String) -> (r: Option<usize>)
        ensures
            match r {
                Some(i) => 0 <= i < self.records@.len()
                    && self.records@[i as int].account_id@ == account_id@,
                None => !self.has_account(account_id@),
            },
    {
        let mut i: usize = 0;
        while i < self.records.len()
            invariant
                i <= self.records@.len(),
                forall|j: int| 0 <= j < i ==> self.records@[j].account_id@ != account_id@,
            decreases self.records@.len() - i,
        {
            if self.records[i].account_id == *account_id {
                return Some(i);
            }
            i = i + 1;
        }
        None
    }

    /// Whether the account has at least one recorded event. Never fails.
    pub fn user_exist(&self, account_id: String) -> (r: bool)
        ensures
            r == self.has_account(account_id@),
    {
        match self.find_account(&account_id) {
            Some(_) => true,
            None => false,
        }
    }

    /// Record one score event for `account_id`.
    ///
    /// The caller hands in what the host supplies: the caller's identity, the
    /// clock reading for the event's timestamp, and the metered resource cost
    /// reported in the outcome. A first event creates the account's history
    /// and counts a new distinct account; later events append, preserving
    /// every prior entry and their order; an account whose history already
    /// holds the full ten events is refused with `CapacityExceeded` and
    /// nothing — history or counters — changes.
    pub fn store_score(
        &mut self,
        account_id: String,
        score: u16,
        timestamp: u64,
        gas_used: u64,
        description: String,
    ) -> (r: Result<PublishingOutcome, LedgerError>)
        requires
            old(self).wf(),
            old(self).contract_state.user_count < u64::MAX,
            old(self).contract_state.score_count < u64::MAX,
        ensures
            final(self).wf(),
            final(self).owner_id == old(self).owner_id,
            r is Ok <==> old(self).history_or_empty(account_id@).len() < HISTORY_CAPACITY,
            r is Err ==> r->Err_0 == LedgerError::CapacityExceeded
                && *final(self) == *old(self),
            r is Ok ==> r->Ok_0.gas_used == gas_used
                && r->Ok_0.score_owner@ == account_id@
                && r->Ok_0.successful_operation,
            r is Ok ==> final(self).has_account(account_id@)
                && final(self).history(account_id@)
                    == old(self).history_or_empty(account_id@).push(
                        SpecEvent { score, timestamp, digest: digest_of(description@) },
                    ),
            forall|a: Seq<char>| a != account_id@
                ==> #[trigger] final(self).has_account(a) == old(self).has_account(a)
                    && final(self).history_or_empty(a) == old(self).history_or_empty(a),
            r is Ok ==> final(self).contract_state.score_count
                == old(self).contract_state.score_count + 1,
            r is Ok ==> final(self).contract_state.user_count
                == old(self).contract_state.user_count
                    + (if old(self).has_account(account_id@) { 0int } else { 1int }),
    {
        let digest = digest_text(description.as_str());
        let new_event = User { score, timestamp, description: digest };
        let ghost ev = SpecEvent { score, timestamp, digest: digest_of(description@) };
        assert(new_event@ == ev);
        match self.find_account(&account_id) {
            None => {
                let mut first: Vec<User> = Vec::new();
                first.push(new_event);
                let entry = ScoreRecord { account_id: account_id.clone(), scores: first };
                let ghost gentry = entry;
                proof {
                    assert(gentry.account_id@ == account_id@);
                    assert(events_of(gentry.scores@) =~= seq![ev]);
                }
                let ghost prior = *self;
                let ghost n = self.records@.len() as int;
                proof {
                    lemma_total_events_push(self.records@, entry);
                }
                self.records.push(entry);
                self.contract_state.user_count = self.contract_state.user_count + 1;
                self.contract_state.score_count = self.contract_state.score_count + 1;
                proof {
                    assert forall|i: int, j: int| 0 <= i < j < self.records@.len()
                        implies self.records@[i].account_id@
                            != self.records@[j].account_id@ by {
                        if j == n {
                            assert(self.records@[i] == prior.records@[i]);
                            assert(prior.records@[i].account_id@ != account_id@);
                        } else {
                            assert(self.records@[i] == prior.records@[i]);
                            assert(self.records@[j] == prior.records@[j]);
                        }
                    }
                    assert(self.wf());
                    lemma_account_index_unique(*self, account_id@, n);
                    assert(self.history(account_id@) =~= Seq::<SpecEvent>::empty().push(ev));
                    assert forall|a: Seq<char>| a != account_id@
                        implies #[trigger] self.has_account(a) == prior.has_account(a)
                            && self.history_or_empty(a) == prior.history_or_empty(a) by {
                        lemma_other_accounts_agree(prior, *self, a);
                    }
                }
                Ok(PublishingOutcome {
                    gas_used,
                    score_owner: account_id,
                    successful_operation: true,
                })
            },
            Some(i) => {
                proof {
                    lemma_account_index_unique(*self, account_id@, i as int);
                    assert(self.history(account_id@).len()
                        == self.records@[i as int].scores@.len());
                }
                if self.records[i].scores.len() >= HISTORY_CAPACITY {
                    return Err(LedgerError::CapacityExceeded);
                }
                let ghost prior = *self;
                let removed = self.records.remove(i);
                let ScoreRecord { account_id: key, scores: mut hist } = removed;
                hist.push(new_event);
                let entry = ScoreRecord { account_id: key, scores: hist };
                let ghost gentry = entry;
                proof {
                    assert(gentry.account_id@ == account_id@);
                    assert(self.records@.insert(i as int, gentry)
                        =~= prior.records@.update(i as int, gentry));
                    lemma_total_events_update(prior.records@, i as int, gentry);
                }
                self.records.insert(i, entry);
                self.contract_state.score_count = self.contract_state.score_count + 1;
                proof {
                    assert(self.records@ == prior.records@.update(i as int, gentry));
                    assert forall|i2: int, j2: int| 0 <= i2 < j2 < self.records@.len()
                        implies self.records@[i2].account_id@
                            != self.records@[j2].account_id@ by {
                        assert(self.records@[i2].account_id@
                            == prior.records@[i2].account_id@);
                        assert(self.records@[j2].account_id@
                            == prior.records@[j2].account_id@);
                    }
                    assert(self.wf());
                    lemma_account_index_unique(*self, account_id@, i as int);
                    assert(events_of(gentry.scores@)
                        =~= events_of(prior.records@[i as int].scores@).push(ev));
                    assert(self.history(account_id@)
                        == prior.history_or_empty(account_id@).push(ev));
                    assert forall|a: Seq<char>| a != account_id@
                        implies #[trigger] self.has_account(a) == prior.has_account(a)
                            && self.history_or_empty(a) == prior.history_or_empty(a) by {
                        lemma_other_accounts_agree(prior, *self, a);
                    }
                }
                Ok(PublishingOutcome {
                    gas_used,
                    score_owner: account_id,
                    successful_operation: true,
                })
            },
        }
    }

    /// The full, ordered history of the account's score events, or `NotFound`
    /// if the account has never recorded one.
    pub fn query_score_history(&self, account_id: String) -> (r: Result<
        MyScoreHistory,
        LedgerError,
    >)
        requires
            self.wf(),
        ensures
            r is Ok <==> self.has_account(account_id@),
            r is Err ==> r->Err_0 == LedgerError::NotFound,
            r is Ok ==> events_of(r->Ok_0.scores@) == self.history(account_id@),
    {
        match self.find_account(&account_id) {
            None => Err(LedgerError::NotFound),
            Some(i) => {
                let scores = self.records[i].scores.clone();
                proof {
                    lemma_account_index_unique(*self, account_id@, i as int);
                    assert forall|k: int| 0 <= k < scores@.len()
                        implies scores@[k]@ == self.records@[i as int].scores@[k]@ by {
                        assert(vstd::pervasive::cloned::<User>(
                            self.records@[i as int].scores@[k],
                            scores@[k],
                        ));
                    }
                    assert(events_of(scores@) =~= self.history(account_id@));
                }
                Ok(MyScoreHistory { scores })
            },
        }
    }

    /// A read-only status report: the owner set at construction, the host's
    /// clock and storage-size readings handed in by the caller, and the two
    /// aggregate counters.
    pub fn read_state(&self, timestamp: u64, size_now: u64) -> (r: ContractState)
        ensures
            r.owner@ == self.owner_id@,
            r.timestamp == timestamp,
            r.size_now == size_now,
            r.user_count == self.contract_state.user_count,
            r.score_count == self.contract_state.score_count,
    {
        ContractState {
            owner: self.owner_id.clone(),
            timestamp,
            size_now,
            user_count: self.contract_state.user_count,
            score_count: self.contract_state.score_count,
        }
    }
}

} // verus!

