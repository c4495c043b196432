//! The collision index: an append-only store of the records observed during
//! one run. Records are never mutated after insertion; the index is owned by
//! the run and consumed by the duplicate resolver at completion.

use vstd::prelude::*;
use crate::record::{Record, RecordV};

verus! {

/// Append-only store of the input records of one run.
pub struct CollisionIndex {
    records: Vec<Record>,
}

impl View for CollisionIndex {
    type V = Seq<RecordV>;

    closed spec fn view(&self) -> Seq<RecordV> {
        self.records@.map_values(|r: Record| r@)
    }
}

impl CollisionIndex {
    /// An empty index.
    pub fn new() -> (s: Self)
        ensures
            s@ == Seq::<RecordV>::empty(),
    {
        let s = CollisionIndex { records: Vec::new() };
        proof {
            assert(s@ =~= Seq::<RecordV>::empty());
        }
        s
    }

    /// An empty index pre-sized for the expected corpus scale, to avoid
    /// reallocation while millions of records stream in. The spill-file
    /// variant is the alternative when even the pre-sized index would not
    /// fit in memory.
    pub fn with_capacity(cap: usize) -> (s: Self)
        ensures
            s@ == Seq::<RecordV>::empty(),
    {
        let s = CollisionIndex { records: Vec::with_capacity(cap) };
        proof {
            assert(s@ =~= Seq::<RecordV>::empty());
        }
        s
    }

    /// Append one record; earlier records are untouched.
    pub fn insert(&mut self, r: Record)
        ensures
            final(self)@ == old(self)@.push(r@),
    {
        let ghost pre = self.records@;
        self.records.push(r);
        proof {
            assert(self@ =~= pre.map_values(|x: Record| x@).push(self.records@.last()@));
        }
    }

    /// How many records the index holds.
    pub fn len(&self) -> (n: usize)
        ensures
            n == self@.len(),
    {
        self.records.len()
    }

    /// The record at one position.
    pub fn get(&self, i: usize) -> (r: &Record)
        requires
            i < self@.len(),
        ensures
            r@ == self@[i as int],
    {
        &self.records[i]
    }
}

} // verus!
