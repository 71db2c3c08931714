//! The recomputation trigger: grid, viewer and visible set under one roof,
//! with a dirty flag that coalesces any number of mutations into a single
//! recomputation per scheduled check.

use vstd::prelude::*;
use crate::coords::Coordinate;
use crate::coords::Direction;
use crate::current_position::CurrentPosition;
use crate::current_position::step_target;
use crate::line_of_sight::EMustUpdateLos;
use crate::line_of_sight::LineOfSight;
use crate::line_of_sight::compute;
use crate::line_of_sight::visible;
use crate::map::Grid;
use crate::map::TileType;

verus! {

/// The top-level context: owns the grid model, the viewer state and the
/// latest visible set. Mutations mark the engine dirty and raise the change
/// notifier; `tick` consumes the flag and recomputes the visible set at most
/// once, however many mutations preceded it.
pub struct LosEngine {
    pub grid: Grid,
    pub viewer: CurrentPosition,
    pub los: LineOfSight,
    pub dirty: bool,
    pub radius: u32,
}

impl LosEngine {
    /// Well-formedness: the parts agree on the grid's shape, the viewer is
    /// in bounds, and whenever the engine is not dirty the visible set is
    /// exactly the one the current grid and viewer determine.
    pub open spec fn wf(self) -> bool {
        &&& self.grid.wf()
        &&& self.grid.coord_in_bounds(self.viewer.0)
        &&& self.los.wf()
        &&& self.los.width == self.grid.width
        &&& self.los.height == self.grid.height
        &&& !self.dirty ==> self.synced()
    }

    /// The visible set matches the current grid and viewer position.
    pub open spec fn synced(self) -> bool {
        forall|c: Coordinate| #[trigger] self.los.contains(c) == visible(
            self.grid, self.viewer.0, self.radius as int, c,
        )
    }

    /// A fresh engine: an all-floor grid, the viewer at the origin corner,
    /// and the dirty flag already raised so that the first scheduled check
    /// performs the initial computation. The visible set is nonetheless
    /// already the one this grid and viewer determine, so queries before
    /// the first check answer from a completed computation, not from an
    /// arbitrary value.
    pub fn new(width: usize, height: usize, radius: u32) -> (e: LosEngine)
        requires
            1 <= width <= crate::map::MAX_DIM,
            1 <= height <= crate::map::MAX_DIM,
        ensures
            e.wf(),
            e.synced(),
            e.dirty,
            e.radius == radius,
            e.grid.width == width,
            e.grid.height == height,
            forall|x: int, y: int| e.grid.in_bounds(x, y) ==> e.grid.cell(x, y) == TileType::Floor,
            e.viewer.0 == (Coordinate { x: 0, y: 0 }),
    {
        let grid = Grid::new(width, height);
        let viewer = CurrentPosition::new(Coordinate { x: 0, y: 0 });
        let los = compute(&grid, Coordinate { x: 0, y: 0 }, radius);
        LosEngine { grid, viewer, los, dirty: true, radius }
    }

    /// Flips the cell at `c`. An in-bounds toggle changes the grid, marks
    /// the engine dirty and raises the change notifier; an out-of-bounds
    /// toggle is a no-op and raises nothing.
    pub fn toggle(&mut self, c: Coordinate) -> (fired: Option<EMustUpdateLos>)
        requires
            old(self).wf(),
        ensures
            final(self).wf(),
            fired.is_some() == old(self).grid.coord_in_bounds(c),
            fired.is_some() ==> final(self).dirty,
            fired.is_some() ==> final(self).grid.cell(c.x as int, c.y as int) == (match old(
                self,
            ).grid.cell(c.x as int, c.y as int) {
                TileType::Floor => TileType::Wall,
                TileType::Wall => TileType::Floor,
            }),
            forall|x: int, y: int|
                !(x == c.x as int && y == c.y as int) ==> final(self).grid.cell(x, y) == old(
                    self,
                ).grid.cell(x, y),
            fired.is_none() ==> *final(self) == *old(self),
            final(self).viewer == old(self).viewer,
            final(self).los == old(self).los,
            final(self).radius == old(self).radius,
            final(self).grid.width == old(self).grid.width,
            final(self).grid.height == old(self).grid.height,
    {
        let changed = self.grid.toggle(c);
        if changed {
            self.dirty = true;
            Some(EMustUpdateLos)
        } else {
            None
        }
    }

    /// Moves the viewer to an absolute coordinate. A successful position
    /// change — an in-bounds target other than the coordinate the viewer
    /// already occupies — marks the engine dirty and raises the change
    /// notifier exactly once. A move that would leave the grid, or a move
    /// to the current coordinate, is a net no-op and raises nothing.
    pub fn move_to(&mut self, c: Coordinate) -> (fired: Option<EMustUpdateLos>)
        requires
            old(self).wf(),
        ensures
            final(self).wf(),
            fired.is_some() == (old(self).grid.coord_in_bounds(c) && c != old(self).viewer.0),
            fired.is_some() ==> final(self).dirty && final(self).viewer.0 == c,
            fired.is_none() ==> *final(self) == *old(self),
            final(self).grid == old(self).grid,
            final(self).los == old(self).los,
            final(self).radius == old(self).radius,
    {
        let moved = self.viewer.move_to(c, &self.grid);
        if moved {
            self.dirty = true;
            Some(EMustUpdateLos)
        } else {
            None
        }
    }

    /// Steps the viewer one cell in a cardinal direction, with the same
    /// bounds policy as `move_to`.
    pub fn step(&mut self, d: Direction) -> (fired: Option<EMustUpdateLos>)
        requires
            old(self).wf(),
        ensures
            final(self).wf(),
            fired.is_some() == old(self).grid.coord_in_bounds(
                step_target(old(self).viewer.0, d),
            ),
            fired.is_some() ==> final(self).dirty && final(self).viewer.0 == step_target(
                old(self).viewer.0, d,
            ),
            fired.is_none() ==> *final(self) == *old(self),
            final(self).grid == old(self).grid,
            final(self).los == old(self).los,
            final(self).radius == old(self).radius,
    {
        let moved = self.viewer.step(d, &self.grid);
        if moved {
            self.dirty = true;
            Some(EMustUpdateLos)
        } else {
            None
        }
    }

    /// The scheduled check: consumes the dirty flag and recomputes the
    /// visible set exactly once if any mutation happened since the last
    /// check, and not at all otherwise. Either way the visible set matches
    /// the current grid and viewer afterwards.
    pub fn tick(&mut self) -> (recomputed: bool)
        requires
            old(self).wf(),
        ensures
            final(self).wf(),
            recomputed == old(self).dirty,
            !final(self).dirty,
            final(self).synced(),
            final(self).grid == old(self).grid,
            final(self).viewer == old(self).viewer,
            final(self).radius == old(self).radius,
            !recomputed ==> final(self).los == old(self).los,
    {
        if self.dirty {
            self.los = compute(&self.grid, self.viewer.position(), self.radius);
            self.dirty = false;
            true
        } else {
            false
        }
    }

    /// Membership in the most recently computed visible set. After a `tick`
    /// this reflects the current grid and viewer exactly; between mutations
    /// and the next `tick` it still answers from the last completed
    /// computation.
    pub fn is_visible(&self, c: Coordinate) -> (res: bool)
        requires
            self.wf(),
        ensures
            res == self.los.contains(c),
            !self.dirty ==> res == visible(self.grid, self.viewer.0, self.radius as int, c),
    {
        self.los.position_visible(c)
    }

    pub fn position(&self) -> (c: Coordinate)
        ensures
            c == self.viewer.0,
    {
        self.viewer.position()
    }

    pub fn get(&self, c: Coordinate) -> (t: TileType)
        requires
            self.wf(),
        ensures
            t == self.grid.cell(c.x as int, c.y as int),
    {
        self.grid.get(c)
    }
}

} // verus!
