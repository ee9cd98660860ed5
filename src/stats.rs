//! Summary statistics of a window of per-second request counts: extremes,
//! sum, median and a ceiling-ranked 90th percentile.

use vstd::prelude::*;
use vstd::relations::{sorted_by, total_ordering};
use vstd::seq_lib::{lemma_multiset_commutative, lemma_sorted_unique};

verus! {

broadcast use vstd::seq_lib::group_to_multiset_ensures;

/// The ascending order on counts.
pub open spec fn count_leq() -> spec_fn(u64, u64) -> bool {
    |a: u64, b: u64| a <= b
}

/// The values of `s` in ascending order.
pub open spec fn sorted_counts(s: Seq<u64>) -> Seq<u64> {
    s.sort_by(count_leq())
}

pub open spec fn ascending(s: Seq<u64>) -> bool {
    forall|i: int, j: int| 0 <= i < j < s.len() ==> s[i] <= s[j]
}

/// Sum of all values of `s`.
pub open spec fn sum_of(s: Seq<u64>) -> int
    decreases s.len(),
{
    if s.len() == 0 {
        0
    } else {
        sum_of(s.drop_last()) + s.last()
    }
}

/// `m` is the largest value of the non-empty `s`.
pub open spec fn is_max_of(s: Seq<u64>, m: u64) -> bool {
    &&& s.contains(m)
    &&& forall|i: int| 0 <= i < s.len() ==> s[i] <= m
}

/// `m` is the smallest strictly positive value of `s`, or 0 where `s` has
/// none.
pub open spec fn is_min_positive_of(s: Seq<u64>, m: u64) -> bool {
    if exists|i: int| 0 <= i < s.len() && s[i] > 0 {
        &&& m > 0
        &&& s.contains(m)
        &&& forall|i: int| 0 <= i < s.len() && s[i] > 0 ==> m <= s[i]
    } else {
        m == 0
    }
}

/// Median of an ascending sequence: the middle value for an odd length,
/// the floor of the mean of the two middle values for an even one.
pub open spec fn median_of_sorted(t: Seq<u64>) -> int {
    let mid = t.len() as int / 2;
    if t.len() % 2 == 1 {
        t[mid] as int
    } else {
        (t[mid - 1] + t[mid]) / 2
    }
}

/// Index of the 90th percentile among `n` sorted values: `ceil(0.9 * n)`,
/// clamped to the last index.
pub open spec fn p90_index(n: int) -> int {
    let k = (9 * n + 9) / 10;
    if k >= n {
        n - 1
    } else {
        k
    }
}

/// Statistics of a window of counts. The mean is `sum / count`.
#[derive(Debug, Clone, Copy, PartialEq, Eq, Structural)]
pub struct RpsStats {
    /// Smallest strictly positive count, 0 when every count is 0.
    pub min: u64,
    pub max: u64,
    pub sum: u128,
    /// Number of counts in the window.
    pub count: u64,
    pub median: u64,
    pub p90: u64,
}

/// Everything `rps_stats` reports on window `s`.
pub open spec fn describes(r: RpsStats, s: Seq<u64>) -> bool {
    &&& is_max_of(s, r.max)
    &&& is_min_positive_of(s, r.min)
    &&& r.sum == sum_of(s)
    &&& r.count == s.len()
    &&& r.median == median_of_sorted(sorted_counts(s))
    &&& r.p90 == sorted_counts(s)[p90_index(s.len() as int)]
}

proof fn lemma_count_leq_total()
    ensures
        total_ordering(count_leq()),
{
    let r = count_leq();
    assert(vstd::relations::reflexive(r));
    assert(vstd::relations::antisymmetric(r));
    assert(vstd::relations::transitive(r));
    assert(vstd::relations::strongly_connected(r));
}

/// An ascending rearrangement of `s` is the sorted sequence of `s`.
proof fn lemma_ascending_is_sorted(t: Seq<u64>, s: Seq<u64>)
    requires
        ascending(t),
        t.to_multiset() == s.to_multiset(),
    ensures
        t == sorted_counts(s),
{
    lemma_count_leq_total();
    s.lemma_sort_by_ensures(count_leq());
    assert(sorted_by(t, count_leq()));
    lemma_sorted_unique(t, sorted_counts(s), count_leq());
}

proof fn lemma_sorted_counts(s: Seq<u64>)
    ensures
        sorted_counts(s).to_multiset() == s.to_multiset(),
        sorted_counts(s).len() == s.len(),
        ascending(sorted_counts(s)),
{
    lemma_count_leq_total();
    s.lemma_sort_by_ensures(count_leq());
    let t = sorted_counts(s);
    assert forall|i: int, j: int| 0 <= i < j < t.len() implies t[i] <= t[j] by {
        assert(count_leq()(t[i], t[j]));
    }
    s.to_multiset_ensures();
    t.to_multiset_ensures();
}

/// A window in which no request was counted reports 0 for every figure.
pub proof fn lemma_idle_window_stats(r: RpsStats, s: Seq<u64>)
    requires
        s.len() >= 1,
        forall|i: int| 0 <= i < s.len() ==> s[i] == 0,
        describes(r, s),
    ensures
        r.min == 0,
        r.max == 0,
        r.sum == 0,
        r.median == 0,
        r.p90 == 0,
{
    lemma_sorted_counts(s);
    let t = sorted_counts(s);
    s.to_multiset_ensures();
    t.to_multiset_ensures();
    assert forall|k: int| 0 <= k < t.len() implies t[k] == 0 by {
        assert(t.to_multiset().count(t[k]) > 0);
        assert(s.contains(t[k]));
    }
    lemma_sum_of_zeros(s);
}

proof fn lemma_sum_of_zeros(s: Seq<u64>)
    requires
        forall|i: int| 0 <= i < s.len() ==> s[i] == 0,
    ensures
        sum_of(s) == 0,
    decreases s.len(),
{
    if s.len() > 0 {
        lemma_sum_of_zeros(s.drop_last());
    }
}

/// The values of `w` in ascending order.
fn sort_counts(w: &Vec<u64>) -> (t: Vec<u64>)
    ensures
        t@ == sorted_counts(w@),
{
    let mut t: Vec<u64> = Vec::new();
    let mut i: usize = 0;
    while i < w.len()
        invariant
            i <= w@.len(),
            ascending(t@),
            t@.to_multiset() == w@.subrange(0, i as int).to_multiset(),
        decreases w@.len() - i,
    {
        let x = w[i];
        let mut pos: usize = 0;
        while pos < t.len() && t[pos] <= x
            invariant
                pos <= t@.len(),
                forall|j: int| 0 <= j < pos ==> t@[j] <= x,
            decreases t@.len() - pos,
        {
            pos = pos + 1;
        }
        let ghost old_t = t@;
        t.insert(pos, x);
        proof {
            let a = old_t.subrange(0, pos as int);
            let b = old_t.subrange(pos as int, old_t.len() as int);
            assert(t@ =~= a.push(x) + b);
            assert(old_t =~= a + b);
            lemma_multiset_commutative(a.push(x), b);
            lemma_multiset_commutative(a, b);
            assert(w@.subrange(0, i + 1) =~= w@.subrange(0, i as int).push(x));
            assert(t@.to_multiset() =~= old_t.to_multiset().insert(x));
            assert forall|p: int, q: int| 0 <= p < q < t@.len() implies t@[p] <= t@[q] by {
                if q < pos {
                } else if q == pos {
                } else if p < pos {
                    assert(old_t[p] <= x);
                    if pos < old_t.len() {
                        assert(old_t[pos as int] > x);
                    }
                } else if p == pos {
                    assert(old_t[pos as int] > x);
                }
            }
        }
        i = i + 1;
    }
    proof {
        assert(w@.subrange(0, i as int) =~= w@);
        lemma_ascending_is_sorted(t@, w@);
    }
    t
}

/// Statistics of a non-empty window of counts.
pub fn rps_stats(w: &Vec<u64>) -> (r: RpsStats)
    requires
        w@.len() >= 1,
    ensures
        describes(r, w@),
        r.min <= r.max,
        r.median <= r.p90 <= r.max,
{
    let n = w.len();
    let mut max: u64 = w[0];
    let mut min: u64 = 0;
    let mut sum: u128 = 0;
    let mut i: usize = 0;
    while i < n
        invariant
            n == w@.len() >= 1,
            i <= n,
            w@.subrange(0, i as int).contains(max) || (i == 0 && max == w@[0]),
            forall|j: int| 0 <= j < i ==> w@[j] <= max,
            is_min_positive_of(w@.subrange(0, i as int), min),
            sum == sum_of(w@.subrange(0, i as int)),
            sum <= i * 0xffff_ffff_ffff_ffffu128,
        decreases n - i,
    {
        let x = w[i];
        let ghost prev = w@.subrange(0, i as int);
        let ghost next = w@.subrange(0, i + 1);
        assert(next =~= prev.push(x));
        assert(next.drop_last() =~= prev);
        if x > max {
            max = x;
        }
        if x > 0 && (min == 0 || x < min) {
            min = x;
        }
        assert((i + 1) * 0xffff_ffff_ffff_ffffu128 == i * 0xffff_ffff_ffff_ffffu128
            + 0xffff_ffff_ffff_ffffu128) by (nonlinear_arith);
        sum = sum + x as u128;
        proof {
            assert(next[i as int] == x);
            if exists|j: int| 0 <= j < next.len() && next[j] > 0 {
                if !(exists|j: int| 0 <= j < prev.len() && prev[j] > 0) {
                    assert(x > 0);
                }
            }
        }
        i = i + 1;
    }
    assert(w@.subrange(0, n as int) =~= w@);
    let t = sort_counts(w);
    proof {
        lemma_sorted_counts(w@);
        w@.to_multiset_ensures();
        t@.to_multiset_ensures();
        assert forall|k: int| 0 <= k < n implies w@.contains(#[trigger] t@[k]) by {
            assert(t@.to_multiset().count(t@[k]) > 0);
        }
        assert(w@.to_multiset().count(max) > 0);
        assert(t@.contains(max));
    }
    let mid = n / 2;
    let median: u64 = if n % 2 == 1 {
        t[mid]
    } else {
        ((t[mid - 1] as u128 + t[mid] as u128) / 2) as u64
    };
    let k = (9 * (n as u128) + 9) / 10;
    let idx: usize = if k >= n as u128 {
        n - 1
    } else {
        k as usize
    };
    let p90 = t[idx];
    assert(t@[idx as int] <= max);
    assert(ascending(t@));
    RpsStats { min, max, sum, count: n as u64, median, p90 }
}

} // verus!
