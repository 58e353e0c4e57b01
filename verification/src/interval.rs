//! Ranges of numbers, used to bound the admissible ray parameters and to
//! clamp colour channels.
use crate::scalar::{Scalar, INFINITY_BITS, NEG_INFINITY_BITS};
use vstd::prelude::*;

verus! {

/// A range from `min` to `max`. Nothing requires `min <= max`: a range with its
/// bounds the wrong way round, or with a bound that is not a number, simply
/// contains nothing.
#[derive(Clone, Copy, Debug)]
pub struct Interval {
    pub min: Scalar,
    pub max: Scalar,
}

impl Interval {
    /// The range that contains no number: from positive to negative infinity.
    pub open spec fn spec_empty() -> Interval {
        Interval { min: Scalar { bits: INFINITY_BITS }, max: Scalar { bits: NEG_INFINITY_BITS } }
    }

    /// The range that contains every number.
    pub open spec fn spec_universe() -> Interval {
        Interval { min: Scalar { bits: NEG_INFINITY_BITS }, max: Scalar { bits: INFINITY_BITS } }
    }

    /// The closed test: `min <= x <= max`.
    pub open spec fn spec_contains(self, x: Scalar) -> bool {
        self.min.at_most(x) && x.at_most(self.max)
    }

    /// The open test: `min < x < max`.
    pub open spec fn spec_surrounds(self, x: Scalar) -> bool {
        self.min.below(x) && x.below(self.max)
    }

    /// `x` brought into the range: `min` where `x < min`, else `max` where
    /// `x > max`, else `x` itself (so what is not a number stays so).
    pub open spec fn spec_clamp(self, x: Scalar) -> Scalar {
        if x.below(self.min) {
            self.min
        } else if self.max.below(x) {
            self.max
        } else {
            x
        }
    }

    pub fn new(min: Scalar, max: Scalar) -> (r: Interval)
        ensures
            r.min == min,
            r.max == max,
    {
        Interval { min, max }
    }

    /// The empty range.
    pub fn empty() -> (r: Interval)
        ensures
            r == Interval::spec_empty(),
            forall|x: Scalar| !r.spec_contains(x),
    {
        let r = Interval { min: Scalar::infinity(), max: Scalar::neg_infinity() };
        assert forall|x: Scalar| !r.spec_contains(x) by {
            if r.spec_contains(x) {
                assert(r.min.rank() <= x.rank() <= r.max.rank());
            }
        }
        r
    }

    /// The range of all numbers.
    pub fn universe() -> (r: Interval)
        ensures
            r == Interval::spec_universe(),
            forall|x: Scalar| !x.nan() ==> r.spec_contains(x),
    {
        Interval { min: Scalar::neg_infinity(), max: Scalar::infinity() }
    }

    pub fn contains(&self, x: Scalar) -> (r: bool)
        ensures
            r == self.spec_contains(x),
    {
        self.min.le(&x) && self.max.ge(&x)
    }

    pub fn surrounds(&self, x: Scalar) -> (r: bool)
        ensures
            r == self.spec_surrounds(x),
    {
        self.min.lt(&x) && self.max.gt(&x)
    }

    pub fn clamp(&self, x: Scalar) -> (r: Scalar)
        ensures
            r == self.spec_clamp(x),
    {
        if x.lt(&self.min) {
            return self.min;
        }
        if x.gt(&self.max) {
            return self.max;
        }
        x
    }
}

impl Default for Interval {
    fn default() -> (r: Interval)
        ensures
            r == Interval::spec_empty(),
    {
        Interval { min: Scalar::infinity(), max: Scalar::neg_infinity() }
    }
}

/// The open test rejects both of a range's bounds, whatever the range.
pub proof fn lemma_surrounds_rejects_bounds(i: Interval)
    ensures
        !i.spec_surrounds(i.min),
        !i.spec_surrounds(i.max),
{
}

/// The closed test accepts both bounds of a range whose bounds are numbers in
/// order.
pub proof fn lemma_contains_accepts_bounds(i: Interval)
    requires
        i.min.at_most(i.max),
    ensures
        i.spec_contains(i.min),
        i.spec_contains(i.max),
{
}

/// A range whose bounds are the wrong way round contains nothing and
/// surrounds nothing.
pub proof fn lemma_reversed_interval_is_empty(i: Interval, x: Scalar)
    requires
        i.max.below(i.min),
    ensures
        !i.spec_contains(x),
        !i.spec_surrounds(x),
{
}

/// Clamping a number into a range whose bounds are numbers in order gives a
/// member of the range, and leaves a member as it is.
pub proof fn lemma_clamp_lands_inside(i: Interval, x: Scalar)
    requires
        i.min.at_most(i.max),
        !x.nan(),
    ensures
        i.spec_contains(i.spec_clamp(x)),
        i.spec_contains(x) ==> i.spec_clamp(x) == x,
{
}

} // verus!
