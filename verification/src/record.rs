use vstd::prelude::*;

verus! {

/// One sequencing read: an identifier, a sequence of bases, and one
/// Phred+33 quality score per base.
pub struct ReadRecord {
    pub id: Vec<u8>,
    pub seq: Vec<u8>,
    pub qual: Vec<u8>,
}

/// The mathematical content of a [`ReadRecord`].
pub struct RecordView {
    pub id: Seq<u8>,
    pub seq: Seq<u8>,
    pub qual: Seq<u8>,
}

impl View for ReadRecord {
    type V = RecordView;

    open spec fn view(&self) -> RecordView {
        RecordView { id: self.id@, seq: self.seq@, qual: self.qual@ }
    }
}

/// An owned copy of a byte vector with the same contents.
pub fn clone_bytes(v: &Vec<u8>) -> (r: Vec<u8>)
    ensures
        r@ == v@,
{
    let r = v.clone();
    proof {
        assert forall|i: int| 0 <= i < v@.len() implies r@[i] == v@[i] by {
            assert(cloned::<u8>(v[i], r[i]));
        }
        assert(r@ =~= v@);
    }
    r
}

/// Whether two byte vectors hold the same contents.
pub fn bytes_equal(a: &Vec<u8>, b: &Vec<u8>) -> (r: bool)
    ensures
        r == (a@ == b@),
{
    if a.len() != b.len() {
        return false;
    }
    let mut i: usize = 0;
    while i < a.len()
        invariant
            i <= a@.len(),
            a@.len() == b@.len(),
            forall|k: int| 0 <= k < i ==> a@[k] == b@[k],
        decreases a@.len() - i,
    {
        if a[i] != b[i] {
            return false;
        }
        i = i + 1;
    }
    proof {
        assert(a@ =~= b@);
    }
    true
}

impl ReadRecord {
    /// Every base carries exactly one quality score.
    pub open spec fn wf(self) -> bool {
        self.seq@.len() == self.qual@.len()
    }

    pub fn new(id: Vec<u8>, seq: Vec<u8>, qual: Vec<u8>) -> (r: ReadRecord)
        requires
            seq@.len() == qual@.len(),
        ensures
            r@.id == id@,
            r@.seq == seq@,
            r@.qual == qual@,
            r.wf(),
    {
        ReadRecord { id, seq, qual }
    }

    /// An owned copy with the same identifier, bases and scores.
    pub fn duplicate(&self) -> (r: ReadRecord)
        ensures
            r@ == self@,
    {
        ReadRecord {
            id: clone_bytes(&self.id),
            seq: clone_bytes(&self.seq),
            qual: clone_bytes(&self.qual),
        }
    }
}

} // verus!
