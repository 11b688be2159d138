//! Ranges of the parameter along a ray.

use vstd::prelude::*;
use crate::math::Scalar;
use crate::math::INFINITY_KEY;
use crate::math::ONE_KEY;

verus! {

/// The range of parameters from `min` to `max`. A range whose `min` is
/// greater than its `max` holds nothing.
#[derive(Clone, Copy, Debug)]
pub struct Interval {
    pub min: Scalar,
    pub max: Scalar,
}

impl Interval {
    /// Whether `x` lies in the range, the two ends included.
    pub open spec fn spec_contains(&self, x: Scalar) -> bool {
        self.min@ <= x@ <= self.max@
    }

    /// Whether `x` lies strictly between the two ends.
    pub open spec fn spec_surrounds(&self, x: Scalar) -> bool {
        self.min@ < x@ < self.max@
    }

    /// The range from `min` to `max`.
    pub fn new(min: Scalar, max: Scalar) -> (interval: Self)
        ensures
            interval.min == min,
            interval.max == max,
    {
        Self { min, max }
    }

    /// Whether `x` lies in the range, the two ends included.
    pub fn contains(&self, x: Scalar) -> (inside: bool)
        ensures
            inside == self.spec_contains(x),
    {
        self.min.le(x) && x.le(self.max)
    }

    /// Whether `x` lies strictly between the two ends.
    pub fn surrounds(&self, x: Scalar) -> (inside: bool)
        ensures
            inside == self.spec_surrounds(x),
    {
        self.min.lt(x) && x.lt(self.max)
    }

    /// The range that holds no number: from positive to negative infinity.
    pub fn empty() -> (interval: Self)
        ensures
            interval.min@ == INFINITY_KEY,
            interval.max@ == -INFINITY_KEY,
            forall|x: Scalar| !interval.spec_contains(x),
    {
        Self { min: Scalar::infinity(), max: Scalar::neg_infinity() }
    }

    /// The range of all numbers: from negative to positive infinity.
    pub fn universe() -> (interval: Self)
        ensures
            interval.min@ == -INFINITY_KEY,
            interval.max@ == INFINITY_KEY,
    {
        Self { min: Scalar::neg_infinity(), max: Scalar::infinity() }
    }
}

impl Default for Interval {
    /// The range that holds minus one and nothing else.
    fn default() -> (interval: Self)
        ensures
            interval.min@ == -ONE_KEY,
            interval.max@ == -ONE_KEY,
    {
        let minus_one = Scalar::one().neg();
        Self { min: minus_one, max: minus_one }
    }
}

} // verus!
