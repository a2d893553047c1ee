//! Points of the parameter space and the bounds that confine them.

use crate::scalar::Scalar;
use vstd::prelude::*;

verus! {

/// A point of the parameter space: one coordinate per dimension.
pub type Point = Vec<Scalar>;

/// The bounds of the parameter space: one interval per dimension, in the
/// order of the coordinates.
pub type Bounds = Vec<Interval>;

/// A half-open interval: `low` belongs to it, `high` does not.
#[derive(Clone, Copy, Debug, PartialEq, Eq, Structural)]
pub struct Interval {
    pub low: Scalar,
    pub high: Scalar,
}

impl Interval {
    /// Whether `low <= x < high`.
    pub open spec fn spec_contains(self, x: Scalar) -> bool {
        self.low.spec_le(x) && x.spec_lt(self.high)
    }

    /// The interval from `low` up to, and without, `high`.
    pub fn new(low: Scalar, high: Scalar) -> (r: Interval)
        ensures
            r.low == low,
            r.high == high,
    {
        Interval { low, high }
    }

    /// Whether `low <= x < high`.
    pub fn contains(&self, x: Scalar) -> (r: bool)
        ensures
            r == self.spec_contains(x),
    {
        self.low.le(x) && x.lt(self.high)
    }
}

/// Every coordinate of `coords` lies in the interval of its dimension.
/// `coords` may be a prefix of a point.
pub open spec fn within(coords: Seq<Scalar>, bounds: Seq<Interval>) -> bool {
    &&& coords.len() <= bounds.len()
    &&& forall|i: int| 0 <= i < coords.len() ==> (#[trigger] bounds[i]).spec_contains(coords[i])
}

} // verus!
