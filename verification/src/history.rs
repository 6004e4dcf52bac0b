use vstd::prelude::*;

use crate::record::{Record, RecordView};

verus! {

/// The ordered, append-only sequence of records produced so far by a run.
/// Each task reads it and returns a new history that extends it; records
/// already in it are never changed or removed.
#[derive(Debug, PartialEq, Eq)]
pub struct History {
    records: Vec<Record>,
}

impl View for History {
    type V = Seq<RecordView>;

    closed spec fn view(&self) -> Seq<RecordView> {
        self.records@.map_values(|r: Record| r@)
    }
}

impl History {
    /// The empty history every run starts from.
    pub fn new() -> (h: History)
        ensures
            h@ == Seq::<RecordView>::empty(),
    {
        let h = History { records: Vec::new() };
        proof {
            assert(h@ =~= Seq::<RecordView>::empty());
        }
        h
    }

    /// How many records have been produced.
    pub fn len(&self) -> (n: usize)
        ensures
            n == self@.len(),
    {
        self.records.len()
    }

    /// The record at position `i`, counted in production order.
    pub fn record_at(&self, i: usize) -> (r: &Record)
        requires
            i < self@.len(),
        ensures
            r@ == self@[i as int],
    {
        &self.records[i]
    }

    /// Appends one record in place; everything already present stays.
    pub fn push_record(&mut self, r: Record)
        ensures
            final(self)@ == old(self)@ + seq![r@],
    {
        let ghost prev = self@;
        self.records.push(r);
        proof {
            assert(self@ =~= prev + seq![r@]);
        }
    }

    /// A new history holding this one's records followed by `r`; this one is
    /// left as it was.
    pub fn appended(&self, r: Record) -> (h: History)
        ensures
            h@ == self@ + seq![r@],
    {
        let mut records: Vec<Record> = Vec::new();
        let mut i: usize = 0;
        while i < self.records.len()
            invariant
                i <= self.records@.len(),
                records@.len() == i,
                forall|j: int| 0 <= j < i ==> (#[trigger] records@[j])@ == self.records@[j]@,
            decreases self.records@.len() - i,
        {
            records.push(self.records[i].duplicate());
            i = i + 1;
        }
        records.push(r);
        let h = History { records };
        proof {
            assert(h@ =~= self@ + seq![r@]);
        }
        h
    }
}

} // verus!
