//! Exact statistics and the speed band that each of them falls in.

use crate::wide::Wide;
use vstd::prelude::*;

verus! {

/// Below this many nanoseconds (50 ms) a latency is fast.
pub const FAST_BELOW_NS: u64 = 50_000_000;

/// From this many nanoseconds on (150 ms) a latency is slow.
pub const SLOW_FROM_NS: u64 = 150_000_000;

/// How fast a latency is.
#[derive(Clone, Copy, Debug, PartialEq, Eq, Structural)]
pub enum Band {
    /// Less than 50 ms.
    Fast,
    /// At least 50 ms and less than 150 ms.
    Fair,
    /// At least 150 ms.
    Slow,
}

/// The band of a number of nanoseconds, given whether it is below each of the bounds.
pub open spec fn band_between(below_fast: bool, below_slow: bool) -> Band {
    if below_fast {
        Band::Fast
    } else if below_slow {
        Band::Fair
    } else {
        Band::Slow
    }
}

/// The band of a latency of `ns` nanoseconds.
pub open spec fn latency_band(ns: int) -> Band {
    band_between(ns < FAST_BELOW_NS, ns < SLOW_FROM_NS)
}

/// The fraction `num / den`.
#[derive(Clone, Copy, Debug, PartialEq, Eq)]
pub struct Ratio {
    pub num: u128,
    pub den: u128,
}

/// A standard deviation, by its square: the square root of `num / den`.
#[derive(Clone, Copy, Debug, PartialEq, Eq)]
pub struct Spread {
    pub num: Wide,
    pub den: u128,
}

impl Ratio {
    /// The band of the fraction, as a number of nanoseconds: `num / den` is below a bound when
    /// `num` is below the bound times `den`.
    pub open spec fn in_band(self) -> Band {
        band_between(self.num < FAST_BELOW_NS * self.den, self.num < SLOW_FROM_NS * self.den)
    }

    /// The band of the fraction, as a number of nanoseconds.
    pub fn band(&self) -> (r: Band)
        ensures
            r == self.in_band(),
    {
        let num = Wide::from_u128(self.num);
        if num.less_than(Wide::product(FAST_BELOW_NS as u128, self.den)) {
            Band::Fast
        } else if num.less_than(Wide::product(SLOW_FROM_NS as u128, self.den)) {
            Band::Fair
        } else {
            Band::Slow
        }
    }
}

impl Spread {
    /// The band of the deviation, as a number of nanoseconds: the root of `num / den` is below a
    /// bound when `num` is below the bound's square times `den`.
    pub open spec fn in_band(self) -> Band {
        band_between(
            self.num.value() < FAST_BELOW_NS * FAST_BELOW_NS * self.den,
            self.num.value() < SLOW_FROM_NS * SLOW_FROM_NS * self.den,
        )
    }

    /// The band of the deviation, as a number of nanoseconds.
    pub fn band(&self) -> (r: Band)
        ensures
            r == self.in_band(),
    {
        let fast: u128 = FAST_BELOW_NS as u128 * FAST_BELOW_NS as u128;
        let slow: u128 = SLOW_FROM_NS as u128 * SLOW_FROM_NS as u128;
        if self.num.less_than(Wide::product(fast, self.den)) {
            Band::Fast
        } else if self.num.less_than(Wide::product(slow, self.den)) {
            Band::Fair
        } else {
            Band::Slow
        }
    }
}

/// The band of a latency of `ns` nanoseconds.
pub fn band_of(ns: u64) -> (r: Band)
    ensures
        r == latency_band(ns as int),
{
    if ns < FAST_BELOW_NS {
        Band::Fast
    } else if ns < SLOW_FROM_NS {
        Band::Fair
    } else {
        Band::Slow
    }
}

/// A whole number of nanoseconds is in the same band as a latency, as a fraction and as a
/// standard deviation.
pub proof fn lemma_bands_agree(ns: u64, den: u128, squared: Wide)
    requires
        den > 0,
        ns * den <= u128::MAX,
        squared.value() == ns * ns * den,
    ensures
        (Ratio { num: (ns * den) as u128, den }).in_band() == latency_band(ns as int),
        (Spread { num: squared, den }).in_band() == latency_band(ns as int),
{
    lemma_scaled_order(ns as int, FAST_BELOW_NS as int, den as int);
    lemma_scaled_order(ns as int, SLOW_FROM_NS as int, den as int);
}

/// Multiplying by a positive number keeps the order of two numbers, and that of their squares.
proof fn lemma_scaled_order(a: int, b: int, den: int)
    requires
        0 <= a,
        0 <= b,
        den > 0,
    ensures
        a * den < b * den <==> a < b,
        a * a * den < b * b * den <==> a < b,
{
    if a < b {
        assert(a * den < b * den && a * a < b * b && a * a * den < b * b * den)
            by (nonlinear_arith)
            requires
                0 <= a < b,
                den > 0,
        {
            assert(a * a <= a * b);
            assert(a * b < b * b);
            assert(a * a * den < b * b * den);
        }
    } else {
        assert(a * den >= b * den && a * a * den >= b * b * den) by (nonlinear_arith)
            requires
                0 <= b <= a,
                den > 0,
        {
            assert(a * a >= b * b);
            assert(a * a * den >= b * b * den);
        }
    }
}

/// A latency, a mean or a deviation is fast exactly below 50 ms and slow exactly from 150 ms on: the
/// mean `num / den`, and the deviation whose square is `num / den`.
pub proof fn lemma_bands_by_milliseconds(ns: int, ratio: Ratio, spread: Spread)
    ensures
        latency_band(ns) == Band::Fast <==> ns < 50_000_000,
        latency_band(ns) == Band::Slow <==> ns >= 150_000_000,
        ratio.in_band() == Band::Fast <==> ratio.num < 50_000_000 * ratio.den,
        ratio.in_band() == Band::Slow <==> ratio.num >= 150_000_000 * ratio.den,
        spread.in_band() == Band::Fast <==> spread.num.value() < 2_500_000_000_000_000
            * spread.den,
        spread.in_band() == Band::Slow <==> spread.num.value() >= 22_500_000_000_000_000
            * spread.den,
{
}

} // verus!
