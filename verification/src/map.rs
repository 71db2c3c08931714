//! The grid model: a fixed-size rectangle of floor and wall tiles.

use vstd::prelude::*;
use crate::coords::Coordinate;

verus! {

/// The largest accepted grid side length. Index arithmetic (such as
/// `y * width + x` and the slope products of the line-of-sight sweep) then
/// fits in a `usize` on every target.
pub const MAX_DIM: usize = 0xFFFF;

/// Row-major indexing stays within the tile store and within `usize` range
/// on every target, given the `MAX_DIM` bound on the sides.
pub proof fn lemma_row_index(w: int, h: int, x: int, y: int)
    requires
        1 <= w <= MAX_DIM,
        1 <= h <= MAX_DIM,
        0 <= x < w,
        0 <= y < h,
    ensures
        0 <= y * w + x < w * h,
        y * w + x < 0xFFFF * 0xFFFF,
{
    assert(0 <= y * w + x < w * h && y * w + x < 0xFFFF * 0xFFFF) by (nonlinear_arith)
        requires 1 <= w <= 0xFFFF, 1 <= h <= 0xFFFF, 0 <= x < w, 0 <= y < h;
}

/// Whether a cell lets sight through (`Floor`) or blocks it (`Wall`).
#[derive(Clone, Copy, PartialEq, Eq, Structural, Debug)]
pub enum TileType {
    Floor,
    Wall,
}

/// One tile as a renderer sees it: its coordinate, its kind, and whether the
/// latest line-of-sight computation found it visible.
#[derive(Clone, Copy, PartialEq, Eq, Structural, Debug)]
pub struct Tile {
    pub pos: Coordinate,
    pub tile_type: TileType,
    pub is_visible: bool,
}

impl Tile {
    /// Flips the tile between floor and wall, leaving the rest untouched.
    pub fn toggle_type(&mut self)
        ensures
            final(self).pos == old(self).pos,
            final(self).is_visible == old(self).is_visible,
            final(self).tile_type == (match old(self).tile_type {
                TileType::Floor => TileType::Wall,
                TileType::Wall => TileType::Floor,
            }),
    {
        self.tile_type = match self.tile_type {
            TileType::Floor => TileType::Wall,
            TileType::Wall => TileType::Floor,
        };
    }
}

/// The grid model: a `width` by `height` rectangle of tiles, stored row by
/// row. Created once with every cell a floor; mutated only by `toggle`.
pub struct Grid {
    pub width: usize,
    pub height: usize,
    pub tiles: Vec<TileType>,
}

impl Grid {
    /// Well-formedness: both sides are positive, small enough for index
    /// arithmetic, and the tile store covers the rectangle exactly.
    pub open spec fn wf(self) -> bool {
        &&& 1 <= self.width <= MAX_DIM
        &&& 1 <= self.height <= MAX_DIM
        &&& self.tiles@.len() == self.width * self.height
    }

    /// Whether `(x, y)` names a cell of the grid.
    pub open spec fn in_bounds(self, x: int, y: int) -> bool {
        0 <= x < self.width && 0 <= y < self.height
    }

    pub open spec fn coord_in_bounds(self, c: Coordinate) -> bool {
        self.in_bounds(c.x as int, c.y as int)
    }

    /// The state of the cell at `(x, y)`. A coordinate outside the grid has
    /// no stored state and counts as a wall: it blocks sight and is never
    /// itself visible.
    pub open spec fn cell(self, x: int, y: int) -> TileType {
        if self.in_bounds(x, y) {
            self.tiles@[y * self.width + x]
        } else {
            TileType::Wall
        }
    }

    /// Whether sight passes through `(x, y)`: an in-bounds floor cell.
    pub open spec fn transparent(self, x: int, y: int) -> bool {
        self.cell(x, y) == TileType::Floor
    }

    /// A grid with every cell a floor.
    pub fn new(width: usize, height: usize) -> (g: Grid)
        requires
            1 <= width <= MAX_DIM,
            1 <= height <= MAX_DIM,
        ensures
            g.wf(),
            g.width == width,
            g.height == height,
            forall|x: int, y: int| g.in_bounds(x, y) ==> g.cell(x, y) == TileType::Floor,
    {
        proof {
            assert(width * height <= MAX_DIM * MAX_DIM) by (nonlinear_arith)
                requires 1 <= width <= MAX_DIM, 1 <= height <= MAX_DIM;
        }
        let n: usize = width * height;
        let tiles: Vec<TileType> = vec![TileType::Floor; n];
        let g = Grid { width, height, tiles };
        proof {
            assert forall|x: int, y: int| g.in_bounds(x, y) implies g.cell(x, y)
                == TileType::Floor by {
                assert(0 <= y * g.width + x < g.width * g.height) by (nonlinear_arith)
                    requires 0 <= x < g.width, 0 <= y < g.height;
            }
        }
        g
    }

    /// Direct lookup; returns `Wall` for out-of-bounds coordinates. Never
    /// fails.
    pub fn get(&self, c: Coordinate) -> (t: TileType)
        requires
            self.wf(),
        ensures
            t == self.cell(c.x as int, c.y as int),
    {
        if 0 <= c.x && c.x < self.width as i64 && 0 <= c.y && c.y < self.height as i64 {
            let x: usize = c.x as usize;
            let y: usize = c.y as usize;
            proof {
                lemma_row_index(self.width as int, self.height as int, x as int, y as int);
            }
            self.tiles[y * self.width + x]
        } else {
            TileType::Wall
        }
    }

    /// Flips floor and wall at an in-bounds coordinate and reports `true`;
    /// leaves the grid unchanged and reports `false` for an out-of-bounds
    /// coordinate.
    pub fn toggle(&mut self, c: Coordinate) -> (changed: bool)
        requires
            old(self).wf(),
        ensures
            final(self).wf(),
            final(self).width == old(self).width,
            final(self).height == old(self).height,
            changed == old(self).coord_in_bounds(c),
            changed ==> final(self).cell(c.x as int, c.y as int) == (match old(self).cell(
                c.x as int,
                c.y as int,
            ) {
                TileType::Floor => TileType::Wall,
                TileType::Wall => TileType::Floor,
            }),
            forall|x: int, y: int|
                !(x == c.x as int && y == c.y as int) ==> final(self).cell(x, y) == old(
                    self,
                ).cell(x, y),
            !changed ==> *final(self) == *old(self),
    {
        if 0 <= c.x && c.x < self.width as i64 && 0 <= c.y && c.y < self.height as i64 {
            let x: usize = c.x as usize;
            let y: usize = c.y as usize;
            proof {
                lemma_row_index(self.width as int, self.height as int, x as int, y as int);
            }
            let i: usize = y * self.width + x;
            let flipped = match self.tiles[i] {
                TileType::Floor => TileType::Wall,
                TileType::Wall => TileType::Floor,
            };
            self.tiles[i] = flipped;
            proof {
                assert forall|x2: int, y2: int|
                    !(x2 == c.x as int && y2 == c.y as int) implies self.cell(x2, y2) == old(
                    self,
                ).cell(x2, y2) by {
                    if old(self).in_bounds(x2, y2) {
                        assert(y2 * self.width + x2 != i) by (nonlinear_arith)
                            requires
                                0 <= x2 < self.width,
                                0 <= y2 < self.height,
                                0 <= x < self.width,
                                0 <= y < self.height,
                                !(x2 == x && y2 == y),
                                i == y * self.width + x;
                        lemma_row_index(
                            self.width as int, self.height as int, x2, y2,
                        );
                    }
                }
            }
            true
        } else {
            false
        }
    }
}

} // verus!
