//! The viewer state: the single coordinate sight is computed from.

use vstd::prelude::*;
use crate::coords::Coordinate;
use crate::coords::Direction;
use crate::map::Grid;

verus! {

/// Where a step in a direction would land: North and East increase a
/// coordinate, South and West decrease it.
pub open spec fn step_target(c: Coordinate, d: Direction) -> Coordinate {
    match d {
        Direction::North => Coordinate { x: c.x, y: (c.y + 1) as i64 },
        Direction::South => Coordinate { x: c.x, y: (c.y - 1) as i64 },
        Direction::East => Coordinate { x: (c.x + 1) as i64, y: c.y },
        Direction::West => Coordinate { x: (c.x - 1) as i64, y: c.y },
    }
}

/// The current viewer coordinate. Exactly one viewer exists; movement is
/// bounds-checked against the grid, and a move that would leave the grid is
/// rejected as a no-op.
#[derive(Clone, Copy, PartialEq, Eq, Structural, Debug)]
pub struct CurrentPosition(pub Coordinate);

impl CurrentPosition {
    pub fn new(start: Coordinate) -> (p: CurrentPosition)
        ensures
            p.0 == start,
    {
        CurrentPosition(start)
    }

    pub fn position(&self) -> (c: Coordinate)
        ensures
            c == self.0,
    {
        self.0
    }

    /// Absolute move. An in-bounds target is accepted and stored; an
    /// out-of-bounds target leaves the position unchanged. The result says
    /// whether the position actually changed: an accepted move to the
    /// coordinate already occupied is a net no-op and reports `false`.
    pub fn move_to(&mut self, c: Coordinate, grid: &Grid) -> (changed: bool)
        requires
            grid.wf(),
        ensures
            changed == (grid.coord_in_bounds(c) && c != old(self).0),
            grid.coord_in_bounds(c) ==> final(self).0 == c,
            !changed ==> *final(self) == *old(self),
    {
        if 0 <= c.x && c.x < grid.width as i64 && 0 <= c.y && c.y < grid.height as i64 {
            let changed = !(c == self.0);
            self.0 = c;
            changed
        } else {
            false
        }
    }

    /// Relative step in one of the four cardinal directions, with the same
    /// bounds policy as `move_to`.
    pub fn step(&mut self, d: Direction, grid: &Grid) -> (moved: bool)
        requires
            grid.wf(),
            grid.coord_in_bounds(old(self).0),
        ensures
            moved == grid.coord_in_bounds(step_target(old(self).0, d)),
            moved ==> final(self).0 == step_target(old(self).0, d),
            !moved ==> *final(self) == *old(self),
    {
        let target = match d {
            Direction::North => Coordinate { x: self.0.x, y: self.0.y + 1 },
            Direction::South => Coordinate { x: self.0.x, y: self.0.y - 1 },
            Direction::East => Coordinate { x: self.0.x + 1, y: self.0.y },
            Direction::West => Coordinate { x: self.0.x - 1, y: self.0.y },
        };
        self.move_to(target, grid)
    }
}

} // verus!
