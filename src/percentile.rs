use vstd::prelude::*;

verus! {

/// Ascending order.
pub open spec fn sorted(s: Seq<i64>) -> bool {
    forall|i: int, j: int| 0 <= i <= j < s.len() ==> s[i] <= s[j]
}

/// Index of the 2.5th percentile among `n` sorted values: `floor(n / 40)`.
pub open spec fn lower_index(n: int) -> int {
    n / 40
}

/// Index of the 97.5th percentile among `n` sorted values:
/// `floor(39 n / 40)`, clipped to the last index.
pub open spec fn upper_index(n: int) -> int {
    if 39 * n / 40 < n - 1 {
        39 * n / 40
    } else {
        n - 1
    }
}

/// Direct-index positions of the 2.5th and 97.5th percentiles among `n`
/// sorted values.
pub fn percentile_indices(n: usize) -> (r: (usize, usize))
    requires
        n >= 1,
    ensures
        r.0 == lower_index(n as int),
        r.1 == upper_index(n as int),
        r.0 <= r.1 < n,
{
    let q = n / 40;
    let rem = n % 40;
    let up = if rem == 0 {
        n - q
    } else {
        n - q - 1
    };
    assert(up == 39 * n / 40) by (nonlinear_arith)
        requires
            q == n / 40,
            rem == n % 40,
            up == if rem == 0 { n - q } else { n - q - 1 } as int,
    {
        assert(n == 40 * q + rem);
        if rem == 0 {
            assert(39 * n == 40 * (39 * q));
        } else {
            assert(39 * n == 40 * (39 * q + rem - 1) + (40 - rem));
        }
    }
    let hi = if up < n - 1 {
        up
    } else {
        n - 1
    };
    assert(q <= hi) by (nonlinear_arith)
        requires
            q == n / 40,
            n >= 1,
            up == 39 * n / 40,
            hi == if up < n - 1 { up as int } else { n - 1 },
    ;
    (q, hi)
}

/// Relies on std's `slice::sort`: it orders the elements ascending and
/// keeps them all.
#[verifier::external_body]
fn sort_ascending(v: &mut Vec<i64>)
    ensures
        final(v)@.len() == old(v)@.len(),
        final(v)@.to_multiset() == old(v)@.to_multiset(),
        sorted(final(v)@),
{
    v.sort();
}

/// The 2.5th and 97.5th percentiles of `keys`, taken by direct index in
/// ascending order.
pub fn percentile_bounds(keys: &Vec<i64>) -> (r: (i64, i64))
    requires
        keys.len() >= 1,
    ensures
        exists|s: Seq<i64>|
            #![auto]
            s.len() == keys.len() && s.to_multiset() == keys@.to_multiset() && sorted(s) && r.0
                == s[lower_index(keys.len() as int)] && r.1 == s[upper_index(keys.len() as int)],
        r.0 <= r.1,
{
    let mut s = keys.clone();
    sort_ascending(&mut s);
    let (lo, hi) = percentile_indices(keys.len());
    let r = (s[lo], s[hi]);
    assert(s@.len() == keys.len() && s@.to_multiset() == keys@.to_multiset() && sorted(s@) && r.0
        == s@[lower_index(keys.len() as int)] && r.1 == s@[upper_index(keys.len() as int)]);
    r
}

} // verus!
