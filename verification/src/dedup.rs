//! The record of remote events that have already been handled.
//!
//! Polling windows of the remote service overlap, so the same event may be
//! delivered more than once. Whoever handles events asks here first.

use vstd::prelude::*;
use crate::model::{event_ids, EventID};

verus! {

/// The identifiers seen so far, in the order they were recorded.
#[derive(Debug)]
pub struct Deduplicator {
    seen: Vec<EventID>,
}

impl View for Deduplicator {
    type V = Seq<Seq<char>>;

    closed spec fn view(&self) -> Seq<Seq<char>> {
        event_ids(self.seen@)
    }
}

impl Deduplicator {
    /// A record with nothing in it.
    pub fn new() -> (res: Deduplicator)
        ensures
            res@ == Seq::<Seq<char>>::empty(),
    {
        let res = Deduplicator { seen: Vec::new() };
        assert(event_ids(res.seen@) =~= Seq::empty());
        res
    }

    /// Whether `id` has been recorded.
    pub fn has_seen(&self, id: &EventID) -> (res: bool)
        ensures
            res == self@.contains(id@),
    {
        let mut i: usize = 0;
        while i < self.seen.len()
            invariant
                i <= self.seen.len(),
                forall|j: int| 0 <= j < i ==> self@[j] != id@,
            decreases self.seen.len() - i,
        {
            if self.seen[i] == *id {
                assert(self@[i as int] == id@);
                return true;
            }
            i += 1;
        }
        false
    }

    /// Records `id`. Nothing is ever forgotten.
    pub fn record(&mut self, id: EventID)
        ensures
            final(self)@ == old(self)@.push(id@),
    {
        self.seen.push(id);
        assert(event_ids(self.seen@) =~= event_ids(old(self).seen@).push(id@));
    }

    /// How many identifiers have been recorded.
    pub fn len(&self) -> (res: usize)
        ensures
            res == self@.len(),
    {
        self.seen.len()
    }
}

} // verus!
