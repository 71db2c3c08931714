//! Grid coordinates and cardinal directions.

use vstd::prelude::*;

verus! {

/// A grid cell identifier: an ordered pair of integers. Coordinates outside
/// the grid's bounds are legal values; the grid treats them as opaque and the
/// line-of-sight computation never reports them visible.
#[derive(Clone, Copy, PartialEq, Eq, Structural, Debug)]
pub struct Coordinate {
    pub x: i64,
    pub y: i64,
}

impl Coordinate {
    pub fn new(x: i64, y: i64) -> (c: Coordinate)
        ensures
            c == (Coordinate { x, y }),
    {
        Coordinate { x, y }
    }
}

/// One of the four cardinal directions a viewer can step in. North increases
/// the y coordinate, East increases the x coordinate.
#[derive(Clone, Copy, PartialEq, Eq, Structural, Debug)]
pub enum Direction {
    North,
    South,
    East,
    West,
}

/// The Chebyshev distance between two coordinates: the number of king moves
/// from one to the other. The visibility radius bounds this distance.
pub open spec fn chebyshev(a: Coordinate, b: Coordinate) -> int {
    vstd::math::max(vstd::math::abs(a.x - b.x) as int, vstd::math::abs(a.y - b.y) as int)
}

} // verus!
