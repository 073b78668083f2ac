//! One recorded score event.

use vstd::prelude::*;

verus! {

/// The mathematical value of one score event: the score, the host timestamp
/// under which it was written, and the digest of its description text.
pub ghost struct SpecEvent {
    pub score: u16,
    pub timestamp: u64,
    pub digest: Seq<u8>,
}

/// One score event as stored: a score between 0 and 65535, the host clock's
/// reading at write time, and the one-way digest of the caller's description
/// text. Immutable once written.
#[derive(Debug)]
pub struct User {
    pub score: u16,
    pub timestamp: u64,
    pub description: Vec<u8>,
}

impl View for User {
    type V = SpecEvent;

    open spec fn view(&self) -> SpecEvent {
        SpecEvent { score: self.score, timestamp: self.timestamp, digest: self.description@ }
    }
}

impl Clone for User {
    fn clone(&self) -> (res: Self)
        ensures
            res@ == self@,
    {
        let description = self.description.clone();
        proof {
            assert(description@ =~= self.description@);
        }
        User { score: self.score, timestamp: self.timestamp, description }
    }
}

/// The event values of a stored history, oldest first.
pub open spec fn events_of(h: Seq<User>) -> Seq<SpecEvent> {
    h.map_values(|u: User| u@)
}

} // verus!
