use vstd::prelude::*;

use crate::record::{bytes_equal, clone_bytes, ReadRecord};

verus! {

/// One resolved cluster member: its mate pair, and the total-order key of its
/// average per-base error probability (lower means better quality).
pub struct Member {
    pub r1: ReadRecord,
    pub r2: ReadRecord,
    pub score: u64,
}

/// The combined sequence of a member: its first mate's bases immediately
/// followed by its second mate's bases.
pub open spec fn combined_seq(m: Member) -> Seq<u8> {
    m.r1.seq@ + m.r2.seq@
}

/// How many members of `ms` share the combined sequence `s`.
pub open spec fn count_matching(ms: Seq<Member>, s: Seq<u8>) -> nat
    decreases ms.len(),
{
    if ms.len() == 0 {
        0
    } else {
        count_matching(ms.drop_last(), s) + if combined_seq(ms.last()) == s {
            1nat
        } else {
            0nat
        }
    }
}

/// `j` points at the first member of the consensus group: no member's
/// combined sequence is shared more widely than `ms[j]`'s, and every earlier
/// member's is shared strictly less widely. Groups thus stand in first-seen
/// order, and the first group reaching the maximal size wins.
pub open spec fn is_consensus_index(ms: Seq<Member>, j: int) -> bool {
    &&& 0 <= j < ms.len()
    &&& forall|k: int| 0 <= k < ms.len()
        ==> count_matching(ms, combined_seq(ms[k])) <= count_matching(ms, combined_seq(ms[j]))
    &&& forall|k: int| 0 <= k < j
        ==> count_matching(ms, combined_seq(ms[k])) < count_matching(ms, combined_seq(ms[j]))
}

/// `i` points at the selected representative for consensus sequence `c`: a
/// member that bears `c`, with the lowest score among those, and first in
/// cluster order among the lowest.
pub open spec fn is_selected_index(ms: Seq<Member>, c: Seq<u8>, i: int) -> bool {
    &&& 0 <= i < ms.len()
    &&& combined_seq(ms[i]) == c
    &&& forall|k: int| 0 <= k < ms.len() && combined_seq(ms[k]) == c
        ==> ms[i].score <= ms[k].score
    &&& forall|k: int| 0 <= k < i && combined_seq(ms[k]) == c ==> ms[i].score < ms[k].score
}

/// The pair `r` is the representative of the cluster `ms`: it copies the
/// member selected for the consensus sequence of `ms`.
pub open spec fn is_representative(ms: Seq<Member>, r: (ReadRecord, ReadRecord)) -> bool {
    exists|j: int, i: int|
        {
            &&& #[trigger] is_consensus_index(ms, j)
            &&& #[trigger] is_selected_index(ms, combined_seq(ms[j]), i)
            &&& r.0@ == ms[i].r1@
            &&& r.1@ == ms[i].r2@
        }
}

/// A member always matches its own combined sequence, so every combined
/// sequence of a cluster is borne at least once.
proof fn lemma_count_matching_self(ms: Seq<Member>, i: int)
    requires
        0 <= i < ms.len(),
    ensures
        count_matching(ms, combined_seq(ms[i])) >= 1,
    decreases ms.len(),
{
    if i == ms.len() - 1 {
        assert(ms.last() == ms[i]);
    } else {
        assert(ms.drop_last()[i] == ms[i]);
        lemma_count_matching_self(ms.drop_last(), i);
    }
}

/// Determinism of the consensus: at most one index can head the consensus
/// group, whatever the cluster.
pub proof fn lemma_consensus_index_unique(ms: Seq<Member>, i: int, j: int)
    requires
        is_consensus_index(ms, i),
        is_consensus_index(ms, j),
    ensures
        i == j,
{
    if i < j {
        assert(count_matching(ms, combined_seq(ms[i])) < count_matching(ms, combined_seq(ms[j])));
        assert(count_matching(ms, combined_seq(ms[j])) <= count_matching(ms, combined_seq(ms[i])));
    }
    if j < i {
        assert(count_matching(ms, combined_seq(ms[j])) < count_matching(ms, combined_seq(ms[i])));
        assert(count_matching(ms, combined_seq(ms[i])) <= count_matching(ms, combined_seq(ms[j])));
    }
}

/// Determinism of the selection: at most one index can be the selected
/// representative for a given consensus sequence, whatever the cluster and
/// its scores. Together with the uniqueness of the consensus, repeated runs
/// on identical input therefore pick the identical member.
pub proof fn lemma_selected_index_unique(ms: Seq<Member>, c: Seq<u8>, i: int, j: int)
    requires
        is_selected_index(ms, c, i),
        is_selected_index(ms, c, j),
    ensures
        i == j,
{
    if i < j {
        assert(ms[j].score < ms[i].score);
        assert(ms[i].score <= ms[j].score);
    }
    if j < i {
        assert(ms[i].score < ms[j].score);
        assert(ms[j].score <= ms[i].score);
    }
}

/// Singleton pass-through: in a cluster of exactly one member, that member
/// heads the consensus group and is selected, whatever its score.
pub proof fn lemma_singleton_pass_through(ms: Seq<Member>)
    requires
        ms.len() == 1,
    ensures
        is_consensus_index(ms, 0),
        is_selected_index(ms, combined_seq(ms[0]), 0),
{
    assert(ms.last() == ms[0]);
}

/// The combined sequence of a member, materialized.
pub fn combined_sequence(m: &Member) -> (s: Vec<u8>)
    ensures
        s@ == combined_seq(*m),
{
    let mut s = clone_bytes(&m.r1.seq);
    let mut i: usize = 0;
    proof {
        assert(m.r1.seq@ + m.r2.seq@.take(0) =~= m.r1.seq@);
    }
    while i < m.r2.seq.len()
        invariant
            i <= m.r2.seq@.len(),
            s@ == m.r1.seq@ + m.r2.seq@.take(i as int),
        decreases m.r2.seq@.len() - i,
    {
        let c = m.r2.seq[i];
        s.push(c);
        proof {
            assert((m.r1.seq@ + m.r2.seq@.take(i as int)).push(m.r2.seq@[i as int])
                =~= m.r1.seq@ + m.r2.seq@.take(i as int + 1));
        }
        i = i + 1;
    }
    proof {
        assert(m.r1.seq@ + m.r2.seq@.take(m.r2.seq@.len() as int) =~= combined_seq(*m));
    }
    s
}

/// How many members of the cluster bear the combined sequence `s`.
fn count_with_sequence(seqs: &Vec<Vec<u8>>, cluster: Ghost<Seq<Member>>, s: &Vec<u8>) -> (c: usize)
    requires
        seqs@.len() == cluster@.len(),
        forall|k: int| 0 <= k < seqs@.len() ==> seqs@[k]@ == combined_seq(cluster@[k]),
    ensures
        c == count_matching(cluster@, s@),
{
    let mut c: usize = 0;
    let mut j: usize = 0;
    proof {
        assert(cluster@.take(0) =~= Seq::<Member>::empty());
    }
    while j < seqs.len()
        invariant
            j <= seqs@.len(),
            seqs@.len() == cluster@.len(),
            forall|k: int| 0 <= k < seqs@.len() ==> seqs@[k]@ == combined_seq(cluster@[k]),
            c == count_matching(cluster@.take(j as int), s@),
            c <= j,
        decreases seqs@.len() - j,
    {
        proof {
            let prefix = cluster@.take(j as int + 1);
            assert(prefix.last() == cluster@[j as int]);
            assert(prefix.drop_last() =~= cluster@.take(j as int));
        }
        if bytes_equal(&seqs[j], s) {
            c = c + 1;
        }
        j = j + 1;
    }
    proof {
        assert(cluster@.take(cluster@.len() as int) =~= cluster@);
    }
    c
}

/// Pick the representative of a non-empty cluster: the first member, in
/// cluster order, that bears the consensus sequence with the lowest score.
///
/// The consensus sequence is the combined sequence shared by the most
/// members; between equally wide groups the one seen first wins. A cluster of
/// exactly one member is passed through directly.
pub fn pluck_best_read_from_cluster(cluster: &Vec<Member>) -> (best: usize)
    requires
        cluster@.len() >= 1,
    ensures
        best < cluster@.len(),
        exists|j: int|
            #[trigger] is_consensus_index(cluster@, j)
                && is_selected_index(cluster@, combined_seq(cluster@[j]), best as int),
{
    let n = cluster.len();
    if n == 1 {
        proof {
            lemma_singleton_pass_through(cluster@);
        }
        return 0;
    }

    // The combined sequence of every member, materialized once.
    let mut seqs: Vec<Vec<u8>> = Vec::new();
    let mut i: usize = 0;
    while i < n
        invariant
            i <= n,
            n == cluster@.len(),
            seqs@.len() == i,
            forall|k: int| 0 <= k < i ==> seqs@[k]@ == combined_seq(cluster@[k]),
        decreases n - i,
    {
        let s = combined_sequence(&cluster[i]);
        seqs.push(s);
        i = i + 1;
    }

    // The first member of the widest group, in first-seen order.
    let mut ci: usize = 0;
    let mut best_count: usize = 0;
    let mut k: usize = 0;
    while k < n
        invariant
            k <= n,
            n == cluster@.len(),
            seqs@.len() == n,
            forall|q: int| 0 <= q < n ==> seqs@[q]@ == combined_seq(cluster@[q]),
            k == 0 ==> best_count == 0,
            k > 0 ==> ci < k && best_count == count_matching(
                cluster@,
                combined_seq(cluster@[ci as int]),
            ) && best_count >= 1,
            forall|q: int| 0 <= q < k
                ==> count_matching(cluster@, combined_seq(cluster@[q])) <= best_count,
            forall|q: int| 0 <= q < ci
                ==> count_matching(cluster@, combined_seq(cluster@[q])) < best_count,
        decreases n - k,
    {
        let c = count_with_sequence(&seqs, Ghost(cluster@), &seqs[k]);
        proof {
            lemma_count_matching_self(cluster@, k as int);
        }
        if c > best_count {
            best_count = c;
            ci = k;
        }
        k = k + 1;
    }
    proof {
        assert(is_consensus_index(cluster@, ci as int));
    }

    // The best-quality member among those bearing the consensus sequence.
    // The head of the consensus group bears it, and nobody before it does: an
    // earlier member with the same combined sequence would have the same,
    // not a strictly smaller, share of the cluster.
    let mut best: usize = ci;
    let mut m: usize = ci + 1;
    while m < n
        invariant
            ci < m <= n,
            n == cluster@.len(),
            seqs@.len() == n,
            forall|q: int| 0 <= q < n ==> seqs@[q]@ == combined_seq(cluster@[q]),
            best < m,
            combined_seq(cluster@[best as int]) == combined_seq(cluster@[ci as int]),
            forall|q: int|
                0 <= q < m && combined_seq(cluster@[q]) == combined_seq(cluster@[ci as int])
                    ==> cluster@[best as int].score <= cluster@[q].score,
            forall|q: int|
                0 <= q < best && combined_seq(cluster@[q]) == combined_seq(cluster@[ci as int])
                    ==> cluster@[best as int].score < cluster@[q].score,
        decreases n - m,
    {
        if bytes_equal(&seqs[m], &seqs[ci]) {
            if cluster[m].score < cluster[best].score {
                best = m;
            }
        }
        m = m + 1;
    }
    proof {
        assert(is_selected_index(
            cluster@,
            combined_seq(cluster@[ci as int]),
            best as int,
        ));
    }
    best
}

} // verus!
