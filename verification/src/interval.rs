//! A range of numbers between two ends.

use vstd::prelude::*;
use crate::scalar::Scalar;

verus! {

/// The range from `min` to `max`. Nothing enforces `min <= max`: a range
/// whose ends are the wrong way round surrounds nothing.
#[derive(Clone, Copy, Debug, PartialEq, Eq, Structural)]
pub struct Interval {
    pub min: Scalar,
    pub max: Scalar,
}

impl Interval {
    /// Whether `x` lies strictly between the ends.
    pub open spec fn surrounds_spec(self, x: Scalar) -> bool {
        self.min.lt_spec(x) && x.lt_spec(self.max)
    }

    /// `x` moved to the nearer end when it lies outside the range. A NaN is
    /// outside of nothing and stays as it is.
    pub open spec fn clamp_spec(self, x: Scalar) -> Scalar {
        if x.lt_spec(self.min) {
            self.min
        } else if self.max.lt_spec(x) {
            self.max
        } else {
            x
        }
    }

    /// The range with the given ends.
    pub fn new(min: Scalar, max: Scalar) -> (r: Interval)
        ensures
            r == (Interval { min, max }),
    {
        Interval { min, max }
    }

    /// Whether `x` lies strictly between the ends: neither end is
    /// surrounded.
    pub fn surrounds(&self, x: Scalar) -> (r: bool)
        ensures
            r == self.surrounds_spec(x),
            x == self.min || x == self.max ==> !r,
    {
        self.min.lt(x) && x.lt(self.max)
    }

    /// `x`, or the end of the range that `x` lies beyond.
    pub fn clamp(&self, x: Scalar) -> (r: Scalar)
        ensures
            r == self.clamp_spec(x),
    {
        if x.lt(self.min) {
            return self.min;
        }
        if x.gt(self.max) {
            return self.max;
        }
        x
    }
}

/// A range surrounds neither of its own ends, whatever they are.
pub proof fn lemma_surrounds_excludes_ends(range: Interval)
    ensures
        !range.surrounds_spec(range.min),
        !range.surrounds_spec(range.max),
{
}

/// What a range surrounds is not a NaN, and the range's ends are in order.
pub proof fn lemma_surrounded_is_ordered(range: Interval, x: Scalar)
    requires
        range.surrounds_spec(x),
    ensures
        !x.nan(),
        range.min.lt_spec(range.max),
{
}

/// Within a range whose ends are in order, a clamped number lies between
/// the ends, a number between the ends is left alone, and clamping twice
/// changes nothing more.
pub proof fn lemma_clamp_within(range: Interval, x: Scalar)
    requires
        range.min.le_spec(range.max),
        !x.nan(),
    ensures
        range.min.le_spec(range.clamp_spec(x)),
        range.clamp_spec(x).le_spec(range.max),
        range.min.le_spec(x) && x.le_spec(range.max) ==> range.clamp_spec(x) == x,
        range.clamp_spec(range.clamp_spec(x)) == range.clamp_spec(x),
{
}

} // verus!
