use vstd::prelude::*;

use crate::record::ReadRecord;

verus! {

/// The record that `id` resolves to among `entries`: the last entry bearing
/// that identifier, or `None` when no entry bears it.
pub open spec fn lookup(entries: Seq<ReadRecord>, id: Seq<u8>) -> Option<ReadRecord>
    decreases entries.len(),
{
    if entries.len() == 0 {
        None
    } else if entries.last().id@ == id {
        Some(entries.last())
    } else {
        lookup(entries.drop_last(), id)
    }
}

/// An identifier-keyed table of the reads of one input file.
///
/// Records are kept in arrival order; a later record with the same identifier
/// shadows an earlier one, so resolution is last-write-wins.
pub struct ReadIndex {
    entries: Vec<ReadRecord>,
}

impl ReadIndex {
    /// The records the table was built from, in arrival order.
    pub closed spec fn records(&self) -> Seq<ReadRecord> {
        self.entries@
    }

    pub fn new() -> (r: ReadIndex)
        ensures
            r.records() =~= Seq::<ReadRecord>::empty(),
    {
        ReadIndex { entries: Vec::new() }
    }

    /// Add one record. A record with the identifier of an earlier one shadows
    /// it; every other identifier still resolves as before.
    pub fn insert(&mut self, rec: ReadRecord)
        ensures
            final(self).records() == old(self).records().push(rec),
            lookup(final(self).records(), rec.id@) == Some(rec),
            forall|other: Seq<u8>| other != rec.id@
                ==> lookup(final(self).records(), other) == lookup(old(self).records(), other),
    {
        proof {
            let pushed = self.entries@.push(rec);
            assert(pushed.last() == rec);
            assert(pushed.drop_last() =~= self.entries@);
        }
        self.entries.push(rec);
    }

    /// Look an identifier up, resolving to the last record that bears it.
    pub fn get(&self, id: &Vec<u8>) -> (r: Option<&ReadRecord>)
        ensures
            match r {
                Some(rec) => lookup(self.records(), id@) == Some(*rec),
                None => lookup(self.records(), id@) is None,
            },
    {
        let n = self.entries.len();
        let mut i: usize = n;
        proof {
            assert(self.entries@.take(n as int) =~= self.entries@);
        }
        while i > 0
            invariant
                i <= n,
                n == self.entries@.len(),
                lookup(self.entries@, id@) == lookup(self.entries@.take(i as int), id@),
            decreases i,
        {
            i = i - 1;
            proof {
                let prefix = self.entries@.take(i as int + 1);
                assert(prefix.last() == self.entries@[i as int]);
                assert(prefix.drop_last() =~= self.entries@.take(i as int));
            }
            if crate::record::bytes_equal(&self.entries[i].id, id) {
                return Some(&self.entries[i]);
            }
        }
        proof {
            assert(self.entries@.take(0) =~= Seq::<ReadRecord>::empty());
        }
        None
    }
}

/// The two identifier-keyed tables of a paired run, one per mate file.
pub struct PairIndices {
    pub r1: ReadIndex,
    pub r2: ReadIndex,
}

impl PairIndices {
    /// Resolve an identifier against both tables at once: a pair comes back
    /// exactly when the identifier is present in both.
    pub fn resolve_pair(&self, id: &Vec<u8>) -> (r: Option<(ReadRecord, ReadRecord)>)
        ensures
            match r {
                Some(pair) => {
                    &&& lookup(self.r1.records(), id@) matches Some(a) && pair.0@ == a@
                    &&& lookup(self.r2.records(), id@) matches Some(b) && pair.1@ == b@
                },
                None => lookup(self.r1.records(), id@) is None
                    || lookup(self.r2.records(), id@) is None,
            },
    {
        match (self.r1.get(id), self.r2.get(id)) {
            (Some(a), Some(b)) => Some((a.duplicate(), b.duplicate())),
            _ => None,
        }
    }
}

} // verus!
