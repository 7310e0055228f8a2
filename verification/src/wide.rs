//! Unsigned numbers of 256 bits, enough for sums of squares of 64-bit samples.

use vstd::prelude::*;

verus! {

/// 2^64.
pub const HALF: u128 = 0x1_0000_0000_0000_0000;

/// 2^128.
#[verifier::inline]
pub open spec fn two128() -> int {
    0x1_0000_0000_0000_0000_0000_0000_0000_0000int
}

/// The number `hi * 2^128 + lo`.
#[derive(Clone, Copy, Debug, PartialEq, Eq)]
pub struct Wide {
    pub hi: u128,
    pub lo: u128,
}

impl Wide {
    /// The number that is meant.
    pub open spec fn value(self) -> int {
        self.hi * two128() + self.lo
    }

    /// A number of 128 bits.
    pub fn from_u128(n: u128) -> (r: Wide)
        ensures
            r.value() == n,
    {
        Wide { hi: 0, lo: n }
    }

    /// The product of two numbers of 128 bits.
    pub fn product(a: u128, b: u128) -> (r: Wide)
        ensures
            r.value() == a * b,
    {
        let a1: u128 = a / HALF;
        let a0: u128 = a % HALF;
        let b1: u128 = b / HALF;
        let b0: u128 = b % HALF;
        proof {
            lemma_digit_product(a0 as int, b0 as int);
            lemma_digit_product(a0 as int, b1 as int);
            lemma_digit_product(a1 as int, b0 as int);
            lemma_digit_product(a1 as int, b1 as int);
        }
        let p00: u128 = a0 * b0;
        let p01: u128 = a0 * b1;
        let p10: u128 = a1 * b0;
        let p11: u128 = a1 * b1;
        let mid: u128 = p00 / HALF + p01 % HALF + p10 % HALF;
        proof {
            assert(a * b == p11 * two128() + (p01 + p10) * HALF + p00) by (nonlinear_arith)
                requires
                    a == a1 * HALF + a0,
                    b == b1 * HALF + b0,
                    p00 == a0 * b0,
                    p01 == a0 * b1,
                    p10 == a1 * b0,
                    p11 == a1 * b1,
                    two128() == HALF * HALF,
            ;
            assert(a * b <= (two128() - 1) * (two128() - 1)) by (nonlinear_arith)
                requires
                    0 <= a <= two128() - 1,
                    0 <= b <= two128() - 1,
            ;
        }
        let lo: u128 = (mid % HALF) * HALF + p00 % HALF;
        let ghost carried = p11 + p01 / HALF + p10 / HALF + mid / HALF;
        assert(a * b == carried * two128() + lo);
        assert(carried < two128());
        let hi: u128 = p11 + p01 / HALF + p10 / HALF + mid / HALF;
        Wide { hi, lo }
    }

    /// The sum of two numbers, where it has at most 256 bits.
    pub fn plus(self, other: Wide) -> (r: Wide)
        requires
            self.value() + other.value() < two128() * two128(),
        ensures
            r.value() == self.value() + other.value(),
    {
        let room: u128 = u128::MAX - other.lo;
        if self.lo > room {
            assert(self.hi + other.hi + 1 < two128());
            Wide { hi: self.hi + other.hi + 1, lo: self.lo - room - 1 }
        } else {
            assert(self.hi + other.hi < two128());
            Wide { hi: self.hi + other.hi, lo: self.lo + other.lo }
        }
    }

    /// The difference of two numbers, the second being no larger than the first.
    pub fn minus(self, other: Wide) -> (r: Wide)
        requires
            other.value() <= self.value(),
        ensures
            r.value() == self.value() - other.value(),
    {
        if self.lo >= other.lo {
            Wide { hi: self.hi - other.hi, lo: self.lo - other.lo }
        } else {
            Wide { hi: self.hi - other.hi - 1, lo: u128::MAX - other.lo + self.lo + 1 }
        }
    }

    /// Whether a number is smaller than another.
    pub fn less_than(self, other: Wide) -> (r: bool)
        ensures
            r == (self.value() < other.value()),
    {
        self.hi < other.hi || (self.hi == other.hi && self.lo < other.lo)
    }
}

/// The product of two 64-bit digits has at most 128 bits.
proof fn lemma_digit_product(x: int, y: int)
    requires
        0 <= x < HALF,
        0 <= y < HALF,
    ensures
        0 <= x * y <= (HALF - 1) * (HALF - 1),
{
    assert(0 <= x * y <= (HALF - 1) * (HALF - 1)) by (nonlinear_arith)
        requires
            0 <= x <= HALF - 1,
            0 <= y <= HALF - 1,
    ;
}

/// The number that is meant is 2^128 times the high half and the low half.
pub proof fn lemma_wide_value(w: Wide)
    ensures
        w.value() == w.hi * 0x1_0000_0000_0000_0000_0000_0000_0000_0000int + w.lo,
{
}

} // verus!
