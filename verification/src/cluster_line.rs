use vstd::prelude::*;

verus! {

/// A cluster-boundary line starts with the boundary marker `>`.
pub open spec fn is_boundary_line(line: Seq<u8>) -> bool {
    line.len() > 0 && line[0] == 62u8
}

/// `g` is the position of the last `>` in `line`.
pub open spec fn is_last_gt(line: Seq<u8>, g: int) -> bool {
    &&& 0 <= g < line.len()
    &&& line[g] == 62u8
    &&& forall|k: int| g < k < line.len() ==> line[k] != 62u8
}

/// A literal `...` stands at position `p` of `line`.
pub open spec fn dots_at(line: Seq<u8>, p: int) -> bool {
    &&& 0 <= p
    &&& p + 3 <= line.len()
    &&& line[p] == 46u8
    &&& line[p + 1] == 46u8
    &&& line[p + 2] == 46u8
}

/// The identifier of a member line spans `(g, p)`: it runs from just after
/// the last `>` of the line to the first `...` that follows it.
pub open spec fn is_id_span(line: Seq<u8>, g: int, p: int) -> bool {
    &&& is_last_gt(line, g)
    &&& dots_at(line, p)
    &&& p > g
    &&& forall|q: int| g < q < p ==> !dots_at(line, q)
}

/// Whether the line matches the member-line shape `>IDENTIFIER...`.
pub open spec fn member_line_matches(line: Seq<u8>) -> bool {
    exists|g: int, p: int| is_id_span(line, g, p)
}

/// The identifier of a matching member line.
pub open spec fn member_id_of(line: Seq<u8>) -> Seq<u8>
    recommends
        member_line_matches(line),
{
    let (g, p): (int, int) = choose|g: int, p: int| is_id_span(line, g, p);
    line.subrange(g + 1, p)
}

/// The identifier span of a line is unique: there is one last `>`, and one
/// first `...` after it.
pub proof fn lemma_id_span_unique(line: Seq<u8>, g1: int, p1: int, g2: int, p2: int)
    requires
        is_id_span(line, g1, p1),
        is_id_span(line, g2, p2),
    ensures
        g1 == g2,
        p1 == p2,
{
    if g1 < g2 {
        assert(line[g2] != 62u8);
    }
    if g2 < g1 {
        assert(line[g1] != 62u8);
    }
    if p1 < p2 {
        assert(!dots_at(line, p1));
    }
    if p2 < p1 {
        assert(!dots_at(line, p2));
    }
}

/// Extract the member identifier of a line: the characters between the last
/// `>` and the first `...` that follows it. `None` when the line does not
/// match that shape.
pub fn extract_member_id(line: &Vec<u8>) -> (r: Option<Vec<u8>>)
    ensures
        match r {
            Some(id) => member_line_matches(line@) && id@ == member_id_of(line@),
            None => !member_line_matches(line@),
        },
{
    let n = line.len();

    // The last `>` of the line.
    let mut g: usize = n;
    let mut i: usize = 0;
    while i < n
        invariant
            i <= n,
            n == line@.len(),
            g == n ==> forall|k: int| 0 <= k < i ==> line@[k] != 62u8,
            g != n ==> g < i && line@[g as int] == 62u8
                && forall|k: int| g < k < i ==> line@[k] != 62u8,
        decreases n - i,
    {
        if line[i] == 62u8 {
            g = i;
        }
        i = i + 1;
    }
    if g == n {
        proof {
            assert forall|gg: int, pp: int| !is_id_span(line@, gg, pp) by {
                if 0 <= gg < line@.len() {
                    assert(line@[gg] != 62u8);
                }
            }
        }
        return None;
    }

    // The first `...` after the last `>`.
    let mut p: usize = n;
    if n >= 3 {
        let mut j: usize = g + 1;
        while j <= n - 3 && p == n
            invariant
                n == line@.len(),
                n >= 3,
                g < n,
                g + 1 <= j,
                j <= n,
                p == n || (j < n && p == j && dots_at(line@, p as int)),
                forall|q: int| g < q < j ==> !dots_at(line@, q),
            decreases n - j + (if p == n { 1int } else { 0int }),
        {
            if line[j] == 46u8 && line[j + 1] == 46u8 && line[j + 2] == 46u8 {
                p = j;
            } else {
                j = j + 1;
            }
        }
        proof {
            if p == n {
                assert forall|q: int| g < q implies !dots_at(line@, q) by {
                    if q < j {
                    } else {
                        assert(q + 3 > line@.len());
                    }
                }
            }
        }
    }
    if p == n {
        proof {
            assert forall|gg: int, pp: int| !is_id_span(line@, gg, pp) by {
                if is_id_span(line@, gg, pp) {
                    assert(is_last_gt(line@, g as int));
                    if gg < g {
                        assert(line@[g as int] != 62u8);
                    }
                    if g < gg {
                        assert(line@[gg] != 62u8);
                    }
                    assert(gg == g);
                    if n >= 3 {
                        assert(!dots_at(line@, pp));
                    } else {
                        assert(pp + 3 > line@.len());
                    }
                }
            }
        }
        return None;
    }

    proof {
        assert(is_id_span(line@, g as int, p as int));
    }

    // The identifier between them.
    let mut id: Vec<u8> = Vec::new();
    let mut k: usize = g + 1;
    while k < p
        invariant
            g + 1 <= k <= p,
            p < n,
            n == line@.len(),
            id@ == line@.subrange(g + 1, k as int),
        decreases p - k,
    {
        let c = line[k];
        id.push(c);
        proof {
            assert(line@.subrange(g + 1, k as int).push(line@[k as int])
                =~= line@.subrange(g + 1, k as int + 1));
        }
        k = k + 1;
    }
    proof {
        let (gg, pp): (int, int) = choose|gg: int, pp: int| is_id_span(line@, gg, pp);
        lemma_id_span_unique(line@, gg, pp, g as int, p as int);
    }
    Some(id)
}

} // verus!
