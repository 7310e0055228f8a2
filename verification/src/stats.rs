//! The arithmetic behind the statistics: sums, deviations, order and rank of samples.

use vstd::prelude::*;
use vstd::relations::sorted_by;
use vstd::relations::total_ordering;
use vstd::seq_lib::lemma_sorted_unique;

verus! {

/// The sum of the samples.
pub open spec fn total(s: Seq<u64>) -> nat
    decreases s.len(),
{
    if s.len() == 0 {
        0
    } else {
        total(s.drop_last()) + s.last() as nat
    }
}

/// The sum of the samples' squares, `n` times.
pub open spec fn scaled_squares(s: Seq<u64>, n: nat) -> nat
    decreases s.len(),
{
    if s.len() == 0 {
        0
    } else {
        scaled_squares(s.drop_last(), n) + n * s.last() as nat * s.last() as nat
    }
}

/// The sum of the squares of `n * x - t` over the samples `x`.
pub open spec fn squared_deviations(s: Seq<u64>, n: int, t: int) -> int
    decreases s.len(),
{
    if s.len() == 0 {
        0
    } else {
        squared_deviations(s.drop_last(), n, t) + (n * s.last() - t) * (n * s.last() - t)
    }
}

/// The order of the samples by size.
pub open spec fn at_most() -> spec_fn(u64, u64) -> bool {
    |a: u64, b: u64| a <= b
}

/// The samples in ascending order.
pub open spec fn ordered(s: Seq<u64>) -> Seq<u64> {
    s.sort_by(at_most())
}

/// A percentage, as a fraction: `num / den` percent.
#[derive(Clone, Copy, Debug, PartialEq, Eq)]
pub struct Percent {
    pub num: i32,
    pub den: u32,
}

/// The index, in ascending order, of the sample at a percentile: that percentage of the way from
/// the first index to the last, rounded to the nearest index, halves up, and never before the
/// first or past the last.
pub open spec fn rank(len: nat, p: Percent) -> int {
    let nearest = (2 * p.num * (len - 1) + 100 * p.den) / (200 * p.den as int);
    if nearest < 0 {
        0
    } else if nearest < len {
        nearest
    } else {
        len - 1
    }
}

/// The sample at a percentile.
pub open spec fn at_percentile(s: Seq<u64>, p: Percent) -> u64 {
    ordered(s)[rank(s.len(), p)]
}

/// A sum of samples is at most so many times the largest 64-bit number.
pub proof fn lemma_total_bound(s: Seq<u64>)
    ensures
        total(s) <= s.len() * u64::MAX,
    decreases s.len(),
{
    if s.len() > 0 {
        lemma_total_bound(s.drop_last());
    }
}

/// A sum of squares is at most so many times the square of the largest 64-bit number.
pub proof fn lemma_scaled_squares_bound(s: Seq<u64>, n: nat)
    ensures
        scaled_squares(s, n) <= s.len() * (n * (u64::MAX * u64::MAX)),
    decreases s.len(),
{
    if s.len() > 0 {
        lemma_scaled_squares_bound(s.drop_last(), n);
        let x = s.last() as int;
        let top = n * (u64::MAX * u64::MAX);
        assert(n * x * x <= top) by (nonlinear_arith)
            requires
                0 <= x <= u64::MAX,
                0 <= n,
                top == n * (u64::MAX * u64::MAX),
        {
            assert(x * x <= u64::MAX * u64::MAX);
            assert(n * x * x == n * (x * x));
        }
        assert(s.len() * top == (s.len() - 1) * top + top) by (nonlinear_arith);
    }
}

/// The squares of the deviations, multiplied out.
pub proof fn lemma_deviations_expand(s: Seq<u64>, n: nat, t: int)
    ensures
        squared_deviations(s, n as int, t) == n * scaled_squares(s, n) - 2 * (n * t * total(s))
            + s.len() * (t * t),
    decreases s.len(),
{
    if s.len() > 0 {
        lemma_deviations_expand(s.drop_last(), n, t);
        let x = s.last() as int;
        let q = scaled_squares(s.drop_last(), n) as int;
        let u = total(s.drop_last()) as int;
        let l = s.len() as int;
        assert((n * x - t) * (n * x - t) == n * (n * x * x) - 2 * (n * t * x) + t * t)
            by (nonlinear_arith);
        assert(n * (q + n * x * x) == n * q + n * (n * x * x)) by (nonlinear_arith);
        assert(n * t * (u + x) == n * t * u + n * t * x) by (nonlinear_arith);
        assert(l * (t * t) == (l - 1) * (t * t) + t * t) by (nonlinear_arith);
    } else {
        assert(n * 0 == 0 && n * t * 0 == 0 && 0 * (t * t) == 0) by (nonlinear_arith);
    }
}

/// A sum of squares is not negative.
pub proof fn lemma_deviations_nonnegative(s: Seq<u64>, n: int, t: int)
    ensures
        squared_deviations(s, n, t) >= 0,
    decreases s.len(),
{
    if s.len() > 0 {
        lemma_deviations_nonnegative(s.drop_last(), n, t);
        let d = n * s.last() - t;
        assert(d * d >= 0) by (nonlinear_arith);
    }
}

/// What the sum of squares exceeds the square of the sum by, as deviations from the mean.
pub proof fn lemma_variance(s: Seq<u64>)
    ensures
        s.len() * (scaled_squares(s, s.len()) - total(s) * total(s)) == squared_deviations(
            s,
            s.len() as int,
            total(s) as int,
        ),
        total(s) * total(s) <= scaled_squares(s, s.len()),
{
    let n = s.len();
    let t = total(s) as int;
    let q = scaled_squares(s, n) as int;
    lemma_deviations_expand(s, n, t);
    lemma_deviations_nonnegative(s, n as int, t);
    assert(n * q - 2 * (n * t * t) + n * (t * t) == n * (q - t * t)) by (nonlinear_arith);
    if n > 0 {
        assert(q - t * t >= 0) by (nonlinear_arith)
            requires
                n > 0,
                n * (q - t * t) >= 0,
        ;
    }
}

/// The order of the samples is total.
pub proof fn lemma_at_most_total()
    ensures
        total_ordering(at_most()),
{
}

/// What it means for the samples to be in ascending order.
pub proof fn lemma_ordered(s: Seq<u64>)
    ensures
        ordered(s).len() == s.len(),
        ordered(s).to_multiset() == s.to_multiset(),
        forall|i: int, j: int| 0 <= i <= j < s.len() ==> ordered(s)[i] <= ordered(s)[j],
{
    lemma_at_most_total();
    s.lemma_sort_by_ensures(at_most());
    s.to_multiset_ensures();
    ordered(s).to_multiset_ensures();
    assert forall|i: int, j: int| 0 <= i <= j < s.len() implies ordered(s)[i] <= ordered(s)[j] by {
        if i < j {
            assert(at_most()(ordered(s)[i], ordered(s)[j]));
        }
    }
}

/// There is one way to put samples in ascending order.
pub proof fn lemma_ordered_unique(s: Seq<u64>, t: Seq<u64>)
    requires
        t.to_multiset() == s.to_multiset(),
        forall|i: int, j: int| 0 <= i <= j < t.len() ==> t[i] <= t[j],
    ensures
        t == ordered(s),
{
    lemma_at_most_total();
    s.lemma_sort_by_ensures(at_most());
    lemma_sorted_unique(t, ordered(s), at_most());
}

/// Putting samples in order neither adds nor loses one.
pub proof fn lemma_ordered_members(s: Seq<u64>, v: u64)
    ensures
        ordered(s).contains(v) <==> s.contains(v),
{
    lemma_ordered(s);
    s.to_multiset_ensures();
    ordered(s).to_multiset_ensures();
    assert(ordered(s).contains(v) <==> ordered(s).to_multiset().count(v) > 0);
}

/// A percentile's index is one of the samples' indices.
pub proof fn lemma_rank_in_range(len: nat, p: Percent)
    requires
        len > 0,
        p.den > 0,
    ensures
        0 <= rank(len, p) < len,
{
}

/// The index of no percentage, or of a negative one, is the first.
pub proof fn lemma_rank_at_start(len: nat, p: Percent)
    requires
        len > 0,
        p.den > 0,
        p.num <= 0,
    ensures
        rank(len, p) == 0,
{
    let top = 2 * p.num * (len - 1) + 100 * p.den;
    assert(2 * p.num * (len - 1) <= 0) by (nonlinear_arith)
        requires
            p.num <= 0,
            len > 0,
    ;
    assert(top / (200 * p.den as int) <= 0) by (nonlinear_arith)
        requires
            top <= 100 * p.den,
            p.den > 0,
    ;
}

/// The sum of one sample is the sample, and the sum of two series is the sum of their sums.
pub proof fn lemma_total_adds(a: Seq<u64>, b: Seq<u64>, x: u64)
    ensures
        total(seq![]) == 0,
        total(seq![x]) == x,
        total(a + b) == total(a) + total(b),
    decreases b.len(),
{
    reveal_with_fuel(total, 2);
    if b.len() == 0 {
        assert(a + b =~= a);
    } else {
        assert((a + b).drop_last() =~= a + b.drop_last());
        lemma_total_adds(a, b.drop_last(), x);
    }
}

/// One sample deviates by the square of its distance, and the deviations of two series add up.
pub proof fn lemma_deviations_add(a: Seq<u64>, b: Seq<u64>, x: u64, n: int, t: int)
    ensures
        squared_deviations(seq![], n, t) == 0,
        squared_deviations(seq![x], n, t) == (n * x - t) * (n * x - t),
        squared_deviations(a + b, n, t) == squared_deviations(a, n, t) + squared_deviations(
            b,
            n,
            t,
        ),
    decreases b.len(),
{
    reveal_with_fuel(squared_deviations, 2);
    if b.len() == 0 {
        assert(a + b =~= a);
    } else {
        assert((a + b).drop_last() =~= a + b.drop_last());
        lemma_deviations_add(a, b.drop_last(), x, n, t);
    }
}

} // verus!
