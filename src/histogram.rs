use vstd::prelude::*;

verus! {

/// One bin of a p-value histogram: how many values fell in it, and whether
/// its right edge lies at or below the significance level.
#[derive(Debug, Clone, Copy, PartialEq, Eq, Structural)]
pub struct BinTally {
    pub count: usize,
    pub significant: bool,
}

/// Number of elements `x` of `s` with `lo <= x < hi`.
pub open spec fn count_in(s: Seq<i64>, lo: int, hi: int) -> nat
    decreases s.len(),
{
    if s.len() == 0 {
        0
    } else {
        count_in(s.drop_last(), lo, hi) + if lo <= s.last() < hi {
            1nat
        } else {
            0nat
        }
    }
}

/// Number of bins described by the edge sequence `e`.
pub open spec fn num_bins(e: Seq<i64>) -> int {
    if e.len() >= 1 {
        e.len() - 1
    } else {
        0
    }
}

/// Count of bin `i`: closed-open `[e[i], e[i + 1])`, except for the last
/// bin, which is closed on both ends.
pub open spec fn bin_count(s: Seq<i64>, e: Seq<i64>, i: int) -> nat {
    if i == num_bins(e) - 1 {
        count_in(s, e[i] as int, e[i + 1] + 1)
    } else {
        count_in(s, e[i] as int, e[i + 1] as int)
    }
}

/// Sum of the counts of bins `0 .. k`.
pub open spec fn sum_bin_counts(s: Seq<i64>, e: Seq<i64>, k: int) -> nat
    decreases k,
{
    if k <= 0 {
        0
    } else {
        sum_bin_counts(s, e, k - 1) + bin_count(s, e, k - 1)
    }
}

/// Each edge is at or below every later one.
pub open spec fn ascending(e: Seq<i64>) -> bool {
    forall|i: int, j: int| 0 <= i <= j < e.len() ==> e[i] <= e[j]
}

/// Counts the values of `s` in `[lo, hi)`, or in `[lo, hi]` when `closed`.
fn count_between(s: &Vec<i64>, lo: i64, hi: i64, closed: bool) -> (r: usize)
    ensures
        r == if closed {
            count_in(s@, lo as int, hi + 1)
        } else {
            count_in(s@, lo as int, hi as int)
        },
{
    let ghost top: int = if closed { hi + 1 } else { hi as int };
    let mut c: usize = 0;
    let mut j: usize = 0;
    while j < s.len()
        invariant
            j <= s.len(),
            c <= j,
            top == if closed { hi + 1 } else { hi as int },
            c == count_in(s@.subrange(0, j as int), lo as int, top),
        decreases s.len() - j,
    {
        let x = s[j];
        assert(s@.subrange(0, j + 1).drop_last() =~= s@.subrange(0, j as int));
        if lo <= x && (x < hi || (closed && x == hi)) {
            c = c + 1;
        }
        j = j + 1;
    }
    assert(s@.subrange(0, s.len() as int) =~= s@);
    c
}

/// Histogram of the p-value keys `p_values` over the bins whose edges are
/// `edges` (ascending keys, one more than the number of bins). A bin is
/// significant when its right edge is at or below `alpha`.
pub fn build_histogram(p_values: &Vec<i64>, edges: &Vec<i64>, alpha: i64) -> (r: Vec<BinTally>)
    ensures
        r.len() == num_bins(edges@),
        forall|i: int|
            0 <= i < r.len() ==> #[trigger] r[i].count == bin_count(p_values@, edges@, i),
        forall|i: int| 0 <= i < r.len() ==> #[trigger] r[i].significant == (edges[i + 1] <= alpha),
{
    let mut r: Vec<BinTally> = Vec::new();
    if edges.len() < 2 {
        return r;
    }
    let nb = edges.len() - 1;
    let mut i: usize = 0;
    while i < nb
        invariant
            nb == edges.len() - 1,
            nb == num_bins(edges@),
            i <= nb,
            r.len() == i,
            forall|k: int| 0 <= k < i ==> #[trigger] r[k].count == bin_count(p_values@, edges@, k),
            forall|k: int| 0 <= k < i ==> #[trigger] r[k].significant == (edges[k + 1] <= alpha),
        decreases nb - i,
    {
        let count = count_between(p_values, edges[i], edges[i + 1], i == nb - 1);
        r.push(BinTally { count, significant: edges[i + 1] <= alpha });
        i = i + 1;
    }
    r
}

proof fn lemma_count_split(s: Seq<i64>, a: int, b: int, c: int)
    requires
        a <= b <= c,
    ensures
        count_in(s, a, c) == count_in(s, a, b) + count_in(s, b, c),
    decreases s.len(),
{
    if s.len() > 0 {
        lemma_count_split(s.drop_last(), a, b, c);
    }
}

proof fn lemma_count_all(s: Seq<i64>, lo: int, hi: int)
    requires
        forall|k: int| 0 <= k < s.len() ==> lo <= #[trigger] s[k] < hi,
    ensures
        count_in(s, lo, hi) == s.len(),
    decreases s.len(),
{
    if s.len() > 0 {
        let t = s.drop_last();
        assert forall|k: int| 0 <= k < t.len() implies lo <= #[trigger] t[k] < hi by {
            assert(t[k] == s[k]);
        }
        lemma_count_all(t, lo, hi);
    }
}

proof fn lemma_open_bins(s: Seq<i64>, e: Seq<i64>, k: int)
    requires
        ascending(e),
        0 <= k < num_bins(e),
    ensures
        sum_bin_counts(s, e, k) == count_in(s, e[0] as int, e[k] as int),
    decreases k,
{
    if k > 0 {
        lemma_open_bins(s, e, k - 1);
        lemma_count_split(s, e[0] as int, e[k - 1] as int, e[k] as int);
    } else {
        lemma_count_split(s, e[0] as int, e[0] as int, e[0] as int);
    }
}

/// Every value lying between the first and the last edge is counted in
/// exactly one bin: the bin counts add up to the number of values.
pub proof fn lemma_histogram_partition(p_values: Seq<i64>, edges: Seq<i64>)
    requires
        edges.len() >= 2,
        ascending(edges),
        forall|k: int|
            0 <= k < p_values.len() ==> edges[0] <= #[trigger] p_values[k] <= edges.last(),
    ensures
        sum_bin_counts(p_values, edges, num_bins(edges)) == p_values.len(),
{
    let nb = num_bins(edges);
    lemma_open_bins(p_values, edges, nb - 1);
    lemma_count_split(p_values, edges[0] as int, edges[nb - 1] as int, edges[nb] + 1);
    lemma_count_all(p_values, edges[0] as int, edges[nb] + 1);
}

} // verus!
