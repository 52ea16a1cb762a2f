//! Where a value falls among ordered edges, and the ordered search that finds it.
use crate::level::Level;
use vstd::prelude::*;

verus! {

/// The edges are in non-decreasing numeric order.
pub open spec fn sorted_by_rank(s: Seq<Level>) -> bool {
    forall|i: int, j: int|
        0 <= i <= j < s.len() ==> #[trigger] s[i].rank_spec() <= #[trigger] s[j].rank_spec()
}

/// No edge is NaN.
pub open spec fn free_of_nan(s: Seq<Level>) -> bool {
    forall|i: int| 0 <= i < s.len() ==> !(#[trigger] s[i]).is_nan_spec()
}

/// What an edge table must be: ordered, without NaN.
pub open spec fn edges_valid(s: Seq<Level>) -> bool {
    sorted_by_rank(s) && free_of_nan(s)
}

/// The bin of a value of rank `v`: the number of edges at or below it.
///
/// An edge is the upper boundary of the bin below it, so a value equal to an edge lands in
/// the bin above that edge.
pub open spec fn count_at_most(s: Seq<Level>, v: int) -> nat
    decreases s.len(),
{
    if s.len() == 0 {
        0
    } else {
        count_at_most(s.drop_last(), v) + if s.last().rank_spec() <= v {
            1nat
        } else {
            0nat
        }
    }
}

/// Where the edges up to `p` are at or below `v` and the rest above it, `p` is the bin of `v`.
pub proof fn lemma_count_at_split(s: Seq<Level>, v: int, p: int)
    requires
        0 <= p <= s.len(),
        forall|i: int| 0 <= i < p ==> #[trigger] s[i].rank_spec() <= v,
        forall|i: int| p <= i < s.len() ==> #[trigger] s[i].rank_spec() > v,
    ensures
        count_at_most(s, v) == p,
    decreases s.len(),
{
    if s.len() > 0 {
        let t = s.drop_last();
        let q = if p == s.len() {
            p - 1
        } else {
            p
        };
        assert forall|i: int| 0 <= i < q implies #[trigger] t[i].rank_spec() <= v by {
            assert(t[i] == s[i]);
        }
        assert forall|i: int| q <= i < t.len() implies #[trigger] t[i].rank_spec() > v by {
            assert(t[i] == s[i]);
        }
        lemma_count_at_split(t, v, q);
        if p == s.len() {
            assert(s[s.len() - 1].rank_spec() <= v);
        } else {
            assert(s[s.len() - 1].rank_spec() > v);
        }
    }
}

/// No value falls beyond the last bin: the bin of any value is at most the number of edges.
pub proof fn lemma_count_at_most_bounded(s: Seq<Level>, v: int)
    ensures
        count_at_most(s, v) <= s.len(),
    decreases s.len(),
{
    if s.len() > 0 {
        lemma_count_at_most_bounded(s.drop_last(), v);
    }
}

/// Finds the bin of `value` among sorted edges by binary search: the number of edges at or
/// below it. A value below the first edge is in bin 0, one above the last edge in the bin past
/// the last edge's index.
pub fn find_bin(edges: &Vec<Level>, value: Level) -> (r: usize)
    requires
        sorted_by_rank(edges@),
    ensures
        r == count_at_most(edges@, value.rank_spec()),
        r <= edges@.len(),
{
    let v: i64 = value.rank();
    let n: usize = edges.len();
    if n == 0 || v < edges[0].rank() {
        proof {
            lemma_count_at_split(edges@, v as int, 0);
        }
        return 0;
    }
    if v > edges[n - 1].rank() {
        proof {
            lemma_count_at_split(edges@, v as int, n as int);
        }
        return n;
    }
    let mut lo: usize = 0;
    let mut hi: usize = n;
    while lo < hi
        invariant
            n == edges@.len(),
            v == value.rank_spec(),
            sorted_by_rank(edges@),
            0 <= lo <= hi <= n,
            forall|i: int| 0 <= i < lo ==> #[trigger] edges@[i].rank_spec() <= v,
            forall|i: int| hi <= i < n ==> #[trigger] edges@[i].rank_spec() > v,
        decreases hi - lo,
    {
        let mid: usize = lo + (hi - lo) / 2;
        if v >= edges[mid].rank() {
            lo = mid + 1;
        } else {
            hi = mid;
        }
    }
    proof {
        lemma_count_at_split(edges@, v as int, lo as int);
    }
    lo
}

/// A larger value never lands in a lower bin: the bin is non-decreasing in the value.
pub proof fn lemma_bin_monotone(s: Seq<Level>, a: Level, b: Level)
    requires
        a.rank_spec() < b.rank_spec(),
    ensures
        count_at_most(s, a.rank_spec()) <= count_at_most(s, b.rank_spec()),
    decreases s.len(),
{
    if s.len() > 0 {
        lemma_bin_monotone(s.drop_last(), a, b);
    }
}

/// A value equal to edge `k` lands in bin `k + 1`, the bin above that edge, wherever the next
/// edge is strictly larger (or there is none).
pub proof fn lemma_edge_lands_above(s: Seq<Level>, k: int)
    requires
        edges_valid(s),
        0 <= k < s.len(),
        k + 1 < s.len() ==> s[k].rank_spec() < s[k + 1].rank_spec(),
    ensures
        count_at_most(s, s[k].rank_spec()) == k + 1,
{
    let v = s[k].rank_spec();
    assert forall|i: int| 0 <= i < k + 1 implies #[trigger] s[i].rank_spec() <= v by {
        assert(s[i].rank_spec() <= s[k].rank_spec());
    }
    assert forall|i: int| k + 1 <= i < s.len() implies #[trigger] s[i].rank_spec() > v by {
        assert(s[k + 1].rank_spec() <= s[i].rank_spec());
    }
    lemma_count_at_split(s, v, k + 1);
}

/// A value below the first edge lands in bin 0; one above the last edge lands in the top bin,
/// whose index is the number of edges.
pub proof fn lemma_out_of_range(s: Seq<Level>, value: Level)
    requires
        edges_valid(s),
        s.len() > 0,
    ensures
        value.rank_spec() < s[0].rank_spec() ==> count_at_most(s, value.rank_spec()) == 0,
        value.rank_spec() > s.last().rank_spec() ==> count_at_most(s, value.rank_spec())
            == s.len(),
{
    let v = value.rank_spec();
    if v < s[0].rank_spec() {
        assert forall|i: int| 0 <= i < s.len() implies #[trigger] s[i].rank_spec() > v by {
            assert(s[0].rank_spec() <= s[i].rank_spec());
        }
        lemma_count_at_split(s, v, 0);
    }
    if v > s.last().rank_spec() {
        assert forall|i: int| 0 <= i < s.len() implies #[trigger] s[i].rank_spec() <= v by {
            assert(s[i].rank_spec() <= s[s.len() - 1].rank_spec());
        }
        lemma_count_at_split(s, v, s.len() as int);
    }
}

} // verus!
