//! Exact rational numbers over machine integers.
//!
//! Fee averages, spike baselines, and spike ratios are quotients of
//! integer quantities (sums of fees, sample counts, peak fees). They
//! are represented exactly as a signed numerator over a positive
//! denominator instead of floating point, so that every comparison and
//! classification in the library is exact.

use vstd::prelude::*;

verus! {

/// Largest numerator magnitude a well-formed ratio may carry.
///
/// Fees are at most 1_000_000_000 stroops and buffers hold at most
/// 1_000_000_000 samples, so every sum of fees the library forms fits
/// in this bound.
pub const RATIO_NUM_MAX: i64 = 1_000_000_000_000_000_000;

/// Largest denominator a well-formed ratio may carry.
pub const RATIO_DEN_MAX: u64 = 1_000_000_000_000_000_000;

/// An exact rational `num / den` with `den > 0`.
#[derive(Clone, Copy, Debug)]
pub struct Ratio {
    pub num: i64,
    pub den: u64,
}

impl Ratio {
    /// A well-formed ratio: a positive denominator and both parts
    /// inside the bounds the library's arithmetic relies on.
    pub open spec fn wf(self) -> bool {
        &&& 1 <= self.den <= RATIO_DEN_MAX
        &&& -RATIO_NUM_MAX <= self.num <= RATIO_NUM_MAX
    }

    /// True when the denoted value is strictly positive.
    pub open spec fn spec_is_positive(self) -> bool {
        self.num > 0
    }

    /// Construct the ratio `num / den`.
    pub fn new(num: i64, den: u64) -> (r: Ratio)
        requires
            1 <= den <= RATIO_DEN_MAX,
            -RATIO_NUM_MAX <= num <= RATIO_NUM_MAX,
        ensures
            r.num == num,
            r.den == den,
            r.wf(),
    {
        Ratio { num, den }
    }

    /// The ratio 0/1.
    pub fn zero() -> (r: Ratio)
        ensures
            r.num == 0,
            r.den == 1,
            r.wf(),
    {
        Ratio { num: 0, den: 1 }
    }

    /// Whether the denoted value is strictly positive.
    pub fn is_positive(&self) -> (r: bool)
        ensures
            r == self.spec_is_positive(),
    {
        self.num > 0
    }

    /// The denoted value scaled by 1000 and rounded towards negative
    /// infinity: floor(1000 * num / den). Used where sums of ratios
    /// with unrelated denominators must be compared at fixed precision.
    pub open spec fn spec_milli(self) -> int
        recommends
            self.wf(),
    {
        (1000 * self.num) / (self.den as int)
    }

    /// floor(1000 * num / den) for a well-formed non-negative ratio.
    pub fn milli(&self) -> (r: i128)
        requires
            self.wf(),
            self.num >= 0,
        ensures
            r == self.spec_milli(),
            0 <= r <= 1000 * RATIO_NUM_MAX,
    {
        let scaled: i128 = 1000i128 * (self.num as i128);
        let q: i128 = scaled / (self.den as i128);
        proof {
            assert(1000 * self.num >= 0);
            assert(q * self.den <= 1000 * self.num) by (nonlinear_arith)
                requires
                    q == (1000 * self.num as int) / (self.den as int),
                    self.den >= 1,
                    self.num >= 0,
            ;
        }
        q
    }
}

} // verus!
