//! Where a car is heading, and how fast it wants to get there.

use crate::point::Point;
use crate::single::Single;
use vstd::prelude::*;

verus! {

/// A target: a place, and the speed at which to approach it.
#[derive(Clone, Copy, Debug, PartialEq, Eq, Structural)]
pub struct Waypoint {
    pub location: Point,
    pub speed: Single,
}

impl Waypoint {
    pub fn new(location: Point, speed: Single) -> (w: Waypoint)
        ensures
            w == (Waypoint { location, speed }),
    {
        Waypoint { location, speed }
    }

    /// Whether a car that goes at `speed` speeds up on its way here, which it
    /// does as long as it is slower than this waypoint wants to be
    /// approached; else it slows down.
    pub fn quickens(&self, speed: Single) -> (r: bool)
        ensures
            r == speed.below(self.speed),
    {
        speed.lt(self.speed)
    }

    pub fn new_2f(x: Single, y: Single, speed: Single) -> (w: Waypoint)
        ensures
            w == (Waypoint { location: Point { x, y }, speed }),
    {
        Waypoint::new(Point::new(x, y), speed)
    }
}

} // verus!
