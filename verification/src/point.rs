//! Points of the plane.

use crate::single::Single;
use vstd::prelude::*;

verus! {

/// A point of the plane, or a displacement in it.
#[derive(Clone, Copy, Debug, PartialEq, Eq, Structural)]
pub struct Point {
    pub x: Single,
    pub y: Single,
}

impl Point {
    /// Whether two points are the same place: both coordinates numerically
    /// equal. A point with a NaN coordinate is no place, not even its own.
    pub open spec fn coincides(self, other: Point) -> bool {
        self.x.alike(other.x) && self.y.alike(other.y)
    }

    pub fn new(x: Single, y: Single) -> (p: Point)
        ensures
            p == (Point { x, y }),
    {
        Point { x, y }
    }

    pub fn same(self, other: Point) -> (r: bool)
        ensures
            r == self.coincides(other),
    {
        self.x.same(other.x) && self.y.same(other.y)
    }
}

} // verus!
