//! A 2D point in document units.

use vstd::prelude::*;
use crate::fixed::Fx;

verus! {

/// The point with the given raw coordinates.
pub open spec fn pt_raw(x: int, y: int) -> Point {
    Point { x: Fx { raw: x as i64 }, y: Fx { raw: y as i64 } }
}

/// An (x, y) pair in fixed-point document units.  On the wire a point is a
/// two-element array `[x, y]`, not a field-named object.
#[derive(Clone, Copy, Debug, PartialEq, Eq, Structural)]
pub struct Point {
    pub x: Fx,
    pub y: Fx,
}

impl Point {
    pub fn new(x: Fx, y: Fx) -> (r: Point)
        ensures
            r.x == x,
            r.y == y,
    {
        Point { x, y }
    }

    /// True for points a document may carry.
    pub open spec fn in_coord_range(self) -> bool {
        self.x.in_coord_range() && self.y.in_coord_range()
    }
}

impl Default for Point {
    /// The origin.
    fn default() -> (r: Point)
        ensures
            r.x.raw == 0,
            r.y.raw == 0,
    {
        Point { x: Fx { raw: 0 }, y: Fx { raw: 0 } }
    }
}

} // verus!
