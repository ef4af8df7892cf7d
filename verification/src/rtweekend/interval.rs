//! Closed and open ranges of ranks.

use vstd::prelude::*;
use crate::rtweekend::{INF, NEG_INF};

verus! {

/// A range of ranks from `min` to `max`. It is empty when `min > max`.
#[derive(Clone, Copy, Debug, PartialEq, Eq, Structural)]
pub struct Interval {
    pub min: i64,
    pub max: i64,
}

impl Interval {
    /// The canonical empty interval: it runs from `INF` down to `NEG_INF`.
    pub open spec fn empty_spec() -> Interval {
        Interval { min: INF, max: NEG_INF }
    }

    /// The interval of everything the tracer measures: from `NEG_INF` to `INF`.
    pub open spec fn universe_spec() -> Interval {
        Interval { min: NEG_INF, max: INF }
    }

    /// `x` lies in the closed range.
    pub open spec fn contains_spec(self, x: i64) -> bool {
        self.min <= x && x <= self.max
    }

    /// `x` lies strictly inside the range.
    pub open spec fn surrounds_spec(self, x: i64) -> bool {
        self.min < x && x < self.max
    }

    /// The member of the range nearest to `x`, the lower bound winning when the
    /// range is empty.
    pub open spec fn clamp_spec(self, x: i64) -> i64 {
        if x < self.min {
            self.min
        } else if x > self.max {
            self.max
        } else {
            x
        }
    }

    pub fn empty() -> (r: Interval)
        ensures
            r == Self::empty_spec(),
    {
        Interval { min: INF, max: NEG_INF }
    }

    pub fn universe() -> (r: Interval)
        ensures
            r == Self::universe_spec(),
    {
        Interval { min: NEG_INF, max: INF }
    }

    pub fn contains(&self, x: i64) -> (r: bool)
        ensures
            r == self.contains_spec(x),
    {
        self.min <= x && x <= self.max
    }

    pub fn surrounds(&self, x: i64) -> (r: bool)
        ensures
            r == self.surrounds_spec(x),
    {
        self.min < x && x < self.max
    }

    pub fn clamp(&self, x: i64) -> (r: i64)
        ensures
            r == self.clamp_spec(x),
    {
        if x < self.min {
            return self.min;
        }
        if x > self.max {
            return self.max;
        }
        x
    }
}

/// Clamping into a range that is not empty lands inside it and leaves its
/// members where they are.
pub proof fn lemma_clamp_lands_inside(range: Interval, x: i64)
    requires
        range.min <= range.max,
    ensures
        range.contains_spec(range.clamp_spec(x)),
        range.contains_spec(x) ==> range.clamp_spec(x) == x,
{
}

} // verus!
