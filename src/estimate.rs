use vstd::prelude::*;

verus! {

/// A sample is sorted when its values never decrease.
pub open spec fn sorted(s: Seq<i64>) -> bool {
    forall|i: int, j: int| 0 <= i <= j < s.len() ==> s[i] <= s[j]
}

/// Errors raised by the statistical core. Statistics are exact rationals, so
/// comparing two of them never fails.
#[derive(Debug, PartialEq, Eq, Structural)]
pub enum Error {
    /// An empty sample where a non-empty one is needed, or a quantile level
    /// outside `[0, 1]` (or with a zero denominator).
    InvalidArgument,
}

/// An exact fraction `num / den`, used as a quantile level.
#[derive(Clone, Copy, Debug, PartialEq, Eq, Structural)]
pub struct Fraction {
    pub num: i64,
    pub den: u64,
}

impl Fraction {
    /// A level in `[0, 1]` with a positive denominator.
    pub open spec fn is_level(self) -> bool {
        self.den > 0 && 0 <= self.num && self.num <= self.den
    }

    /// Rational strict order of two fractions with positive denominators.
    pub open spec fn lt(self, other: Fraction) -> bool {
        self.num * other.den < other.num * self.den
    }
}

/// An exact rational statistic `num / den`, with `den > 0`.
#[derive(Clone, Copy, Debug, PartialEq, Eq, Structural)]
pub struct Estimate {
    pub num: i128,
    pub den: u128,
}

/// Whether `xs` is sorted ascending; the optional invariant check on samples.
pub fn is_sorted(xs: &Vec<i64>) -> (r: bool)
    ensures
        r == sorted(xs@),
{
    let mut k: usize = 1;
    while k < xs.len()
        invariant
            1 <= k,
            forall|i: int, j: int| 0 <= i <= j < k && j < xs@.len() ==> xs@[i] <= xs@[j],
        decreases xs.len() - k,
    {
        if xs[k - 1] > xs[k] {
            return false;
        }
        k = k + 1;
    }
    true
}

} // verus!
