use vstd::prelude::*;

use crate::cluster_line::{extract_member_id, is_boundary_line, member_id_of, member_line_matches};
use crate::index::{lookup, PairIndices};
use crate::record::ReadRecord;
use crate::select::{is_representative, pluck_best_read_from_cluster, Member};

verus! {

/// What one line of the cluster file amounted to.
pub enum LineOutcome {
    /// The very first line of the file, skipped unconditionally.
    Header,
    /// A boundary line: the cluster under construction was closed and its
    /// representative emitted, `None` when it had no resolved member.
    ClusterEnd(Option<(ReadRecord, ReadRecord)>),
    /// A member line whose identifier resolved in both indices. The caller
    /// scores the pair and hands it back through [`ClusterParser::push_member`].
    MemberResolved(ReadRecord, ReadRecord),
    /// A member line whose identifier is absent from at least one index: the
    /// member is skipped, and the identifier reported for diagnostics.
    MemberMissing(Vec<u8>),
    /// A line that matches neither the boundary nor the member shape: skipped.
    Malformed,
}

/// Whether closing a cluster with members `ms` may emit `e`: a representative
/// pair when the cluster has a member, nothing when it is degenerate.
pub open spec fn emission_ok(ms: Seq<Member>, e: Option<(ReadRecord, ReadRecord)>) -> bool {
    match e {
        Some(pair) => ms.len() > 0 && is_representative(ms, pair),
        None => ms.len() == 0,
    }
}

/// The streaming state machine over the cluster file's lines.
///
/// Feed every line, in file order, to [`step`](ClusterParser::step); when a
/// member line resolves, score the pair and hand it back through
/// [`push_member`](ClusterParser::push_member); at end of input call
/// [`finish`](ClusterParser::finish), which closes the last cluster exactly
/// as a boundary line would.
pub struct ClusterParser {
    /// The members of the cluster under construction, in arrival order.
    pub members: Vec<Member>,
    /// How many cluster-boundary transitions were taken so far, the
    /// end-of-input flush included.
    pub cluster_count: u64,
    /// Whether the header, the very first line of the file, went by already.
    pub header_seen: bool,
}

impl ClusterParser {
    pub fn new() -> (r: ClusterParser)
        ensures
            r.members@.len() == 0,
            r.cluster_count == 0,
            !r.header_seen,
    {
        ClusterParser { members: Vec::new(), cluster_count: 0, header_seen: false }
    }

    /// Close the cluster under construction: one more boundary transition,
    /// the representative of the members gathered so far emitted, the member
    /// list emptied.
    fn close_cluster(&mut self) -> (r: Option<(ReadRecord, ReadRecord)>)
        requires
            old(self).cluster_count < u64::MAX,
        ensures
            final(self).cluster_count == old(self).cluster_count + 1,
            final(self).members@.len() == 0,
            final(self).header_seen == old(self).header_seen,
            emission_ok(old(self).members@, r),
    {
        self.cluster_count = self.cluster_count + 1;
        let emitted: Option<(ReadRecord, ReadRecord)> = if self.members.len() == 0 {
            None
        } else {
            let i = pluck_best_read_from_cluster(&self.members);
            let m = &self.members[i];
            Some((m.r1.duplicate(), m.r2.duplicate()))
        };
        self.members.clear();
        emitted
    }

    /// Take one line of the cluster file. The first line is skipped as the
    /// header; a line starting with the boundary marker closes the cluster
    /// under construction; any other line is a member line, answered with its
    /// resolved pair, its missing identifier, or its malformedness.
    pub fn step(&mut self, line: &Vec<u8>, indices: &PairIndices) -> (r: LineOutcome)
        requires
            old(self).cluster_count < u64::MAX,
        ensures
            !old(self).header_seen ==> {
                &&& r is Header
                &&& final(self).header_seen
                &&& final(self).members@ == old(self).members@
                &&& final(self).cluster_count == old(self).cluster_count
            },
            old(self).header_seen ==> final(self).header_seen,
            old(self).header_seen && is_boundary_line(line@) ==> {
                &&& final(self).cluster_count == old(self).cluster_count + 1
                &&& final(self).members@.len() == 0
                &&& match r {
                    LineOutcome::ClusterEnd(e) => emission_ok(old(self).members@, e),
                    _ => false,
                }
            },
            old(self).header_seen && !is_boundary_line(line@) ==> {
                &&& final(self).members@ == old(self).members@
                &&& final(self).cluster_count == old(self).cluster_count
                &&& match r {
                    LineOutcome::MemberResolved(a, b) => {
                        &&& member_line_matches(line@)
                        &&& lookup(indices.r1.records(), member_id_of(line@)) matches Some(ra)
                            && a@ == ra@
                        &&& lookup(indices.r2.records(), member_id_of(line@)) matches Some(rb)
                            && b@ == rb@
                    },
                    LineOutcome::MemberMissing(id) => {
                        &&& member_line_matches(line@)
                        &&& id@ == member_id_of(line@)
                        &&& lookup(indices.r1.records(), id@) is None
                            || lookup(indices.r2.records(), id@) is None
                    },
                    LineOutcome::Malformed => !member_line_matches(line@),
                    _ => false,
                }
            },
    {
        if !self.header_seen {
            self.header_seen = true;
            return LineOutcome::Header;
        }
        if line.len() > 0 && line[0] == 62u8 {
            let emitted = self.close_cluster();
            return LineOutcome::ClusterEnd(emitted);
        }
        match extract_member_id(line) {
            None => LineOutcome::Malformed,
            Some(id) => match indices.resolve_pair(&id) {
                Some(pair) => LineOutcome::MemberResolved(pair.0, pair.1),
                None => LineOutcome::MemberMissing(id),
            },
        }
    }

    /// Append a resolved, scored member to the cluster under construction.
    pub fn push_member(&mut self, r1: ReadRecord, r2: ReadRecord, score: u64)
        ensures
            final(self).members@ == old(self).members@.push((Member { r1, r2, score })),
            final(self).cluster_count == old(self).cluster_count,
            final(self).header_seen == old(self).header_seen,
    {
        self.members.push(Member { r1, r2, score });
    }

    /// End of input: close the last cluster exactly as a boundary line would,
    /// even though no trailing boundary line exists.
    pub fn finish(&mut self) -> (r: Option<(ReadRecord, ReadRecord)>)
        requires
            old(self).cluster_count < u64::MAX,
        ensures
            final(self).cluster_count == old(self).cluster_count + 1,
            final(self).members@.len() == 0,
            emission_ok(old(self).members@, r),
    {
        self.close_cluster()
    }
}

/// The boundary transitions a full run takes: the evolution of
/// `cluster_count` folded through `lines` from a parser in the given state,
/// followed by the end-of-input flush.
pub open spec fn run_cluster_count(header_seen: bool, count: nat, lines: Seq<Seq<u8>>) -> nat
    decreases lines.len(),
{
    if lines.len() == 0 {
        count + 1
    } else if !header_seen {
        run_cluster_count(true, count, lines.drop_first())
    } else if is_boundary_line(lines.first()) {
        run_cluster_count(true, count + 1, lines.drop_first())
    } else {
        run_cluster_count(true, count, lines.drop_first())
    }
}

/// The emission events a full run produces: one per closed cluster, whether
/// a representative pair or a degenerate empty emission, the end-of-input
/// flush included.
pub open spec fn run_emission_events(header_seen: bool, lines: Seq<Seq<u8>>) -> nat
    decreases lines.len(),
{
    if lines.len() == 0 {
        1
    } else if !header_seen {
        run_emission_events(true, lines.drop_first())
    } else if is_boundary_line(lines.first()) {
        1 + run_emission_events(true, lines.drop_first())
    } else {
        run_emission_events(true, lines.drop_first())
    }
}

/// How many boundary lines a line sequence holds.
pub open spec fn boundary_line_count(lines: Seq<Seq<u8>>) -> nat
    decreases lines.len(),
{
    if lines.len() == 0 {
        0
    } else {
        (if is_boundary_line(lines.first()) {
            1nat
        } else {
            0nat
        }) + boundary_line_count(lines.drop_first())
    }
}

/// Cluster count conservation: over a full run of the parser — every line
/// stepped in file order, then the end-of-input flush — the number of
/// emission events equals the number of boundary transitions taken, a
/// degenerate all-skipped cluster contributing one empty emission like any
/// other.
pub proof fn lemma_cluster_count_conservation(header_seen: bool, count: nat, lines: Seq<Seq<u8>>)
    ensures
        run_cluster_count(header_seen, count, lines) == count + run_emission_events(
            header_seen,
            lines,
        ),
    decreases lines.len(),
{
    if lines.len() > 0 {
        if !header_seen {
            lemma_cluster_count_conservation(true, count, lines.drop_first());
        } else if is_boundary_line(lines.first()) {
            lemma_cluster_count_conservation(true, count + 1, lines.drop_first());
        } else {
            lemma_cluster_count_conservation(true, count, lines.drop_first());
        }
    }
}

/// Past the header, a run emits once per boundary line, plus once for the
/// end-of-input flush.
pub proof fn lemma_events_count_boundaries(lines: Seq<Seq<u8>>)
    ensures
        run_emission_events(true, lines) == 1 + boundary_line_count(lines),
    decreases lines.len(),
{
    if lines.len() > 0 {
        lemma_events_count_boundaries(lines.drop_first());
    }
}

} // verus!
