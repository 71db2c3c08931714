//! The line-of-sight engine.
//!
//! Visibility is defined per quadrant of the plane around the origin. Sight
//! reaches a cell if it reaches, and passes through, the cell the sight line
//! crosses one ring closer to the origin; when the line crosses exactly on
//! the boundary between two cells, either one may carry the sight (the
//! inclusive boundary rule, which permits the diagonal peek around a wall
//! corner). A cell on the quadrant's diagonal additionally needs one of its
//! two flanking cells to be transparent: sight cannot squeeze between two
//! walls that touch only at a corner. Walls are visible when sight reaches
//! them, but never pass it on; out-of-bounds cells block sight and are never
//! visible.

use vstd::prelude::*;
use crate::coords::Coordinate;
use crate::coords::chebyshev;
use crate::map::Grid;
use crate::map::Tile;
use crate::map::TileType;

verus! {

/// Whether sight passes through the cell at quadrant offset `(a, b)`:
/// `(sx, sy)` give the quadrant's direction along each axis. The origin
/// itself never blocks the sight leaving it, whatever tile the viewer
/// stands on.
pub open spec fn passes(g: Grid, ox: int, oy: int, sx: int, sy: int, a: int, b: int) -> bool {
    (a == 0 && b == 0) || g.transparent(ox + sx * a, oy + sy * b)
}

/// Sight reaching the cell at quadrant offset `(a, b)` with `0 <= a <= b`
/// (the half of the quadrant at or above its diagonal). The sight line from
/// the origin to `(a, b)` crosses row `b - 1` at `a * (b - 1) / b`; the cell
/// is reached if the crossed cell is reached and passes sight on, with both
/// neighbours admitted when the crossing falls exactly on their shared
/// boundary.
pub open spec fn vis_high(g: Grid, ox: int, oy: int, sx: int, sy: int, a: int, b: int) -> bool
    decreases b,
{
    if !(0 <= a <= b) {
        false
    } else if b == 0 {
        true
    } else if a == 0 {
        vis_high(g, ox, oy, sx, sy, 0, b - 1) && passes(g, ox, oy, sx, sy, 0, b - 1)
    } else if a == b {
        vis_high(g, ox, oy, sx, sy, a - 1, b - 1) && passes(g, ox, oy, sx, sy, a - 1, b - 1)
            && (g.transparent(ox + sx * (a - 1), oy + sy * b) || g.transparent(
            ox + sx * a,
            oy + sy * (b - 1),
        ))
    } else {
        let q = a * (b - 1);
        let p = q / b;
        let r = q % b;
        if 2 * r < b {
            vis_high(g, ox, oy, sx, sy, p, b - 1) && passes(g, ox, oy, sx, sy, p, b - 1)
        } else if 2 * r > b {
            vis_high(g, ox, oy, sx, sy, p + 1, b - 1) && passes(g, ox, oy, sx, sy, p + 1, b - 1)
        } else {
            (vis_high(g, ox, oy, sx, sy, p, b - 1) && passes(g, ox, oy, sx, sy, p, b - 1)) || (
            vis_high(g, ox, oy, sx, sy, p + 1, b - 1) && passes(g, ox, oy, sx, sy, p + 1, b - 1))
        }
    }
}

/// Sight reaching the cell at quadrant offset `(a, b)` with `0 <= b < a`
/// (strictly below the quadrant's diagonal), the mirror of `vis_high` with
/// the roles of the axes exchanged. The crossed cell one column closer can
/// lie on the diagonal, where `vis_high` takes over.
pub open spec fn vis_low(g: Grid, ox: int, oy: int, sx: int, sy: int, a: int, b: int) -> bool
    decreases a,
{
    if !(0 <= b < a) {
        false
    } else if b == 0 {
        (if a == 1 {
            true
        } else {
            vis_low(g, ox, oy, sx, sy, a - 1, 0)
        }) && passes(g, ox, oy, sx, sy, a - 1, 0)
    } else {
        let q = b * (a - 1);
        let p = q / a;
        let r = q % a;
        let near = (if p == a - 1 {
            vis_high(g, ox, oy, sx, sy, a - 1, a - 1)
        } else {
            vis_low(g, ox, oy, sx, sy, a - 1, p)
        }) && passes(g, ox, oy, sx, sy, a - 1, p);
        let far = (if p + 1 == a - 1 {
            vis_high(g, ox, oy, sx, sy, a - 1, a - 1)
        } else {
            vis_low(g, ox, oy, sx, sy, a - 1, p + 1)
        }) && passes(g, ox, oy, sx, sy, a - 1, p + 1);
        if 2 * r < a {
            near
        } else if 2 * r > a {
            far
        } else {
            near || far
        }
    }
}

/// Sight reaching the cell at quadrant offset `(a, b)`, either side of the
/// diagonal.
pub open spec fn vis_rel(g: Grid, ox: int, oy: int, sx: int, sy: int, a: int, b: int) -> bool {
    if a <= b {
        vis_high(g, ox, oy, sx, sy, a, b)
    } else {
        vis_low(g, ox, oy, sx, sy, a, b)
    }
}

/// The visibility relation: `c` is visible from `o` on grid `g` within
/// `radius` exactly when `c` is an in-bounds cell, lies within Chebyshev
/// distance `radius` of the origin, and sight reaches it through its
/// quadrant. The visible set is a pure function of these three inputs.
pub open spec fn visible(g: Grid, o: Coordinate, radius: int, c: Coordinate) -> bool {
    let a = vstd::math::abs(c.x - o.x) as int;
    let b = vstd::math::abs(c.y - o.y) as int;
    let sx: int = if c.x >= o.x { 1 } else { -1 };
    let sy: int = if c.y >= o.y { 1 } else { -1 };
    g.in_bounds(c.x as int, c.y as int) && chebyshev(o, c) <= radius && vis_rel(
        g, o.x as int, o.y as int, sx, sy, a, b,
    )
}

/// The set of all coordinates visible from `o` on `g` within `radius`.
pub open spec fn visible_set(g: Grid, o: Coordinate, radius: int) -> Set<Coordinate> {
    Set::new(|c: Coordinate| visible(g, o, radius, c))
}

/// The sign a quadrant gives to an axis: `-1` toward smaller coordinates.
pub open spec fn sgn(neg: bool) -> int {
    if neg {
        -1
    } else {
        1
    }
}

/// How far the quadrant with x-direction `xneg` extends along x before
/// leaving the grid.
pub open spec fn quad_amax(g: Grid, o: Coordinate, xneg: bool) -> int {
    if xneg {
        o.x as int
    } else {
        g.width - 1 - o.x
    }
}

/// How far the quadrant with y-direction `yneg` extends along y before
/// leaving the grid.
pub open spec fn quad_bmax(g: Grid, o: Coordinate, yneg: bool) -> int {
    if yneg {
        o.y as int
    } else {
        g.height - 1 - o.y
    }
}

/// The change-notifier event: raised once by every mutation that can affect
/// visibility, and consumed by the next scheduled recomputation.
pub struct EMustUpdateLos;

/// The visible set, as one line-of-sight computation produced it: a
/// membership mask over the grid's rectangle. Replaced wholesale by each
/// recomputation; consumers only query membership.
pub struct LineOfSight {
    pub width: usize,
    pub height: usize,
    pub cells: Vec<bool>,
}

impl LineOfSight {
    pub open spec fn wf(self) -> bool {
        &&& 1 <= self.width <= crate::map::MAX_DIM
        &&& 1 <= self.height <= crate::map::MAX_DIM
        &&& self.cells@.len() == self.width * self.height
    }

    /// Membership of a coordinate in the visible set.
    pub open spec fn contains(self, c: Coordinate) -> bool {
        &&& 0 <= c.x < self.width
        &&& 0 <= c.y < self.height
        &&& self.cells@[c.y * self.width + c.x]
    }

    /// Membership test against the current visible set.
    pub fn position_visible(&self, pos: Coordinate) -> (res: bool)
        requires
            self.wf(),
        ensures
            res == self.contains(pos),
    {
        if 0 <= pos.x && pos.x < self.width as i64 && 0 <= pos.y && pos.y < self.height as i64 {
            let x: usize = pos.x as usize;
            let y: usize = pos.y as usize;
            proof {
                crate::map::lemma_row_index(
                    self.width as int, self.height as int, x as int, y as int,
                );
            }
            self.cells[y * self.width + x]
        } else {
            false
        }
    }
}

impl View for LineOfSight {
    type V = Set<Coordinate>;

    open spec fn view(&self) -> Set<Coordinate> {
        Set::new(|c: Coordinate| self.contains(c))
    }
}

/// Whether the cell at quadrant offset `(a, b)` is transparent.
fn transp_at(grid: &Grid, origin: Coordinate, xneg: bool, yneg: bool, a: usize, b: usize) -> (res:
    bool)
    requires
        grid.wf(),
        grid.coord_in_bounds(origin),
        a <= crate::map::MAX_DIM,
        b <= crate::map::MAX_DIM,
    ensures
        res == grid.transparent(
            origin.x + sgn(xneg) * a,
            origin.y + sgn(yneg) * b,
        ),
{
    let x: i64 = if xneg {
        origin.x - a as i64
    } else {
        origin.x + a as i64
    };
    let y: i64 = if yneg {
        origin.y - b as i64
    } else {
        origin.y + b as i64
    };
    let t = grid.get(Coordinate { x, y });
    t == TileType::Floor
}

/// Whether sight passes through the cell at quadrant offset `(a, b)`; the
/// origin always passes the sight leaving it.
fn passes_at(grid: &Grid, origin: Coordinate, xneg: bool, yneg: bool, a: usize, b: usize) -> (res:
    bool)
    requires
        grid.wf(),
        grid.coord_in_bounds(origin),
        a <= crate::map::MAX_DIM,
        b <= crate::map::MAX_DIM,
    ensures
        res == passes(
            *grid,
            origin.x as int,
            origin.y as int,
            sgn(xneg),
            sgn(yneg),
            a as int,
            b as int,
        ),
{
    if a == 0 && b == 0 {
        true
    } else {
        transp_at(grid, origin, xneg, yneg, a, b)
    }
}

/// Computes, for one quadrant, which cells of the grid's rectangle on that
/// side of the origin sight reaches, by sweeping the rings outward: entry
/// `[b][a]` of the result answers for quadrant offset `(a, b)`.
fn quad_table(grid: &Grid, origin: Coordinate, xneg: bool, yneg: bool) -> (tab: Vec<Vec<bool>>)
    requires
        grid.wf(),
        grid.coord_in_bounds(origin),
    ensures
        tab@.len() == quad_bmax(*grid, origin, yneg) + 1,
        forall|bi: int|
            0 <= bi < tab@.len() ==> (#[trigger] tab@[bi])@.len() == quad_amax(
                *grid, origin, xneg,
            ) + 1,
        forall|ai: int, bi: int|
            0 <= bi < tab@.len() && 0 <= ai < tab@[bi]@.len() ==> (#[trigger] tab@[bi]@[ai])
                == vis_rel(
                *grid,
                origin.x as int,
                origin.y as int,
                sgn(xneg),
                sgn(yneg),
                ai,
                bi,
            ),
{
    let ghost g = *grid;
    let ghost ox = origin.x as int;
    let ghost oy = origin.y as int;
    let ghost sx = sgn(xneg);
    let ghost sy = sgn(yneg);
    let amax: usize = if xneg {
        origin.x as usize
    } else {
        grid.width - 1 - origin.x as usize
    };
    let bmax: usize = if yneg {
        origin.y as usize
    } else {
        grid.height - 1 - origin.y as usize
    };
    let mut tab: Vec<Vec<bool>> = Vec::new();
    let mut b: usize = 0;
    while b <= bmax
        invariant
            grid.wf(),
            grid.coord_in_bounds(origin),
            g == *grid,
            ox == origin.x as int,
            oy == origin.y as int,
            sx == sgn(xneg),
            sy == sgn(yneg),
            amax == quad_amax(g, origin, xneg),
            bmax == quad_bmax(g, origin, yneg),
            amax <= crate::map::MAX_DIM,
            bmax <= crate::map::MAX_DIM,
            b <= bmax + 1,
            tab@.len() == b,
            forall|bi: int| 0 <= bi < b ==> (#[trigger] tab@[bi])@.len() == amax + 1,
            forall|ai: int, bi: int|
                0 <= bi < b && 0 <= ai <= amax ==> (#[trigger] tab@[bi]@[ai]) == vis_rel(
                    g, ox, oy, sx, sy, ai, bi,
                ),
        decreases bmax + 1 - b,
    {
        let mut cur: Vec<bool> = Vec::new();
        let mut a: usize = 0;
        while a <= amax
            invariant
                grid.wf(),
                grid.coord_in_bounds(origin),
                g == *grid,
                ox == origin.x as int,
                oy == origin.y as int,
                sx == sgn(xneg),
                sy == sgn(yneg),
                amax == quad_amax(g, origin, xneg),
                bmax == quad_bmax(g, origin, yneg),
                amax <= crate::map::MAX_DIM,
                bmax <= crate::map::MAX_DIM,
                b <= bmax,
                a <= amax + 1,
                tab@.len() == b,
                forall|bi: int| 0 <= bi < b ==> (#[trigger] tab@[bi])@.len() == amax + 1,
                forall|ai: int, bi: int|
                    0 <= bi < b && 0 <= ai <= amax ==> (#[trigger] tab@[bi]@[ai]) == vis_rel(
                        g, ox, oy, sx, sy, ai, bi,
                    ),
                cur@.len() == a,
                forall|ai: int| 0 <= ai < a ==> (#[trigger] cur@[ai]) == vis_rel(
                    g, ox, oy, sx, sy, ai, b as int,
                ),
            decreases amax + 1 - a,
        {
            let val: bool;
            if b == 0 {
                if a == 0 {
                    val = true;
                    proof {
                        assert(vis_rel(g, ox, oy, sx, sy, 0, 0) == vis_high(g, ox, oy, sx, sy, 0, 0));
                    }
                } else {
                    let prev = cur[a - 1];
                    let pass = passes_at(grid, origin, xneg, yneg, a - 1, 0);
                    val = prev && pass;
                    proof {
                        if a == 1 {
                            assert(vis_high(g, ox, oy, sx, sy, 0, 0));
                        }
                        assert(vis_low(g, ox, oy, sx, sy, a as int, 0) == val);
                    }
                }
            } else if a == 0 {
                let prev = tab[b - 1][0];
                let pass = passes_at(grid, origin, xneg, yneg, 0, b - 1);
                val = prev && pass;
                proof {
                    assert(vis_high(g, ox, oy, sx, sy, 0, b as int) == val);
                }
            } else if a == b {
                let prev = tab[b - 1][a - 1];
                let pass = passes_at(grid, origin, xneg, yneg, a - 1, b - 1);
                let flank_x = transp_at(grid, origin, xneg, yneg, a - 1, b);
                let flank_y = transp_at(grid, origin, xneg, yneg, a, b - 1);
                val = prev && pass && (flank_x || flank_y);
                proof {
                    assert(vis_high(g, ox, oy, sx, sy, a as int, b as int) == val);
                }
            } else if a < b {
                proof {
                    assert(a * (b - 1) <= 0xFFFF * 0xFFFE) by (nonlinear_arith)
                        requires 0 <= a <= 0xFFFF, 1 <= b <= 0xFFFF;
                }
                let q: usize = a * (b - 1);
                let p: usize = q / b;
                let r: usize = q % b;
                proof {
                    vstd::arithmetic::div_mod::lemma_fundamental_div_mod(q as int, b as int);
                    assert((p as int) < a) by (nonlinear_arith)
                        requires
                            q == a * (b - 1),
                            q == b * (p as int) + (r as int),
                            0 <= r < b,
                            1 <= a,
                            2 <= b;
                }
                let near_vis = tab[b - 1][p];
                let near_pass = passes_at(grid, origin, xneg, yneg, p, b - 1);
                let far_vis = tab[b - 1][p + 1];
                let far_pass = passes_at(grid, origin, xneg, yneg, p + 1, b - 1);
                if 2 * r < b {
                    val = near_vis && near_pass;
                } else if 2 * r > b {
                    val = far_vis && far_pass;
                } else {
                    val = (near_vis && near_pass) || (far_vis && far_pass);
                }
                proof {
                    assert(vis_high(g, ox, oy, sx, sy, a as int, b as int) == val);
                }
            } else {
                proof {
                    assert(b * (a - 1) <= 0xFFFF * 0xFFFE) by (nonlinear_arith)
                        requires 0 <= b <= 0xFFFF, 1 <= a <= 0xFFFF;
                }
                let q: usize = b * (a - 1);
                let p: usize = q / a;
                let r: usize = q % a;
                proof {
                    vstd::arithmetic::div_mod::lemma_fundamental_div_mod(q as int, a as int);
                    assert((p as int) < b) by (nonlinear_arith)
                        requires
                            q == b * (a - 1),
                            q == a * (p as int) + (r as int),
                            0 <= r < a,
                            1 <= b,
                            2 <= a;
                }
                let near_vis = tab[p][a - 1];
                let near_pass = passes_at(grid, origin, xneg, yneg, a - 1, p);
                let far_vis = if p + 1 == b {
                    cur[a - 1]
                } else {
                    tab[p + 1][a - 1]
                };
                let far_pass = passes_at(grid, origin, xneg, yneg, a - 1, p + 1);
                if 2 * r < a {
                    val = near_vis && near_pass;
                } else if 2 * r > a {
                    val = far_vis && far_pass;
                } else {
                    val = (near_vis && near_pass) || (far_vis && far_pass);
                }
                proof {
                    assert(vis_low(g, ox, oy, sx, sy, a as int, b as int) == val);
                }
            }
            cur.push(val);
            a = a + 1;
        }
        tab.push(cur);
        b = b + 1;
    }
    tab
}

/// One full line-of-sight computation: the visible set around `origin`,
/// bounded by `radius`, on a snapshot of the grid. Deterministic: the result
/// is a pure function of the grid contents, the origin and the radius.
pub fn compute(grid: &Grid, origin: Coordinate, radius: u32) -> (los: LineOfSight)
    requires
        grid.wf(),
        grid.coord_in_bounds(origin),
    ensures
        los.wf(),
        los.width == grid.width,
        los.height == grid.height,
        forall|c: Coordinate| #[trigger] los.contains(c) == visible(*grid, origin, radius as int, c),
        los@ == visible_set(*grid, origin, radius as int),
{
    let ghost g = *grid;
    let t_pp = quad_table(grid, origin, false, false);
    let t_np = quad_table(grid, origin, true, false);
    let t_pn = quad_table(grid, origin, false, true);
    let t_nn = quad_table(grid, origin, true, true);
    let w: usize = grid.width;
    let h: usize = grid.height;
    proof {
        assert(w * h <= crate::map::MAX_DIM * crate::map::MAX_DIM) by (nonlinear_arith)
            requires 1 <= w <= crate::map::MAX_DIM, 1 <= h <= crate::map::MAX_DIM;
    }
    let n: usize = w * h;
    let mut cells: Vec<bool> = Vec::new();
    let mut i: usize = 0;
    while i < n
        invariant
            grid.wf(),
            grid.coord_in_bounds(origin),
            g == *grid,
            w == grid.width,
            h == grid.height,
            n == w * h,
            t_pp@.len() == quad_bmax(g, origin, false) + 1,
            forall|bi: int|
                0 <= bi < t_pp@.len() ==> (#[trigger] t_pp@[bi])@.len() == quad_amax(
                    g, origin, false,
                ) + 1,
            forall|ai: int, bi: int|
                0 <= bi < t_pp@.len() && 0 <= ai < t_pp@[bi]@.len() ==> (
                #[trigger] t_pp@[bi]@[ai]) == vis_rel(
                    g, origin.x as int, origin.y as int, 1, 1, ai, bi,
                ),
            t_np@.len() == quad_bmax(g, origin, false) + 1,
            forall|bi: int|
                0 <= bi < t_np@.len() ==> (#[trigger] t_np@[bi])@.len() == quad_amax(
                    g, origin, true,
                ) + 1,
            forall|ai: int, bi: int|
                0 <= bi < t_np@.len() && 0 <= ai < t_np@[bi]@.len() ==> (
                #[trigger] t_np@[bi]@[ai]) == vis_rel(
                    g, origin.x as int, origin.y as int, -1, 1, ai, bi,
                ),
            t_pn@.len() == quad_bmax(g, origin, true) + 1,
            forall|bi: int|
                0 <= bi < t_pn@.len() ==> (#[trigger] t_pn@[bi])@.len() == quad_amax(
                    g, origin, false,
                ) + 1,
            forall|ai: int, bi: int|
                0 <= bi < t_pn@.len() && 0 <= ai < t_pn@[bi]@.len() ==> (
                #[trigger] t_pn@[bi]@[ai]) == vis_rel(
                    g, origin.x as int, origin.y as int, 1, -1, ai, bi,
                ),
            t_nn@.len() == quad_bmax(g, origin, true) + 1,
            forall|bi: int|
                0 <= bi < t_nn@.len() ==> (#[trigger] t_nn@[bi])@.len() == quad_amax(
                    g, origin, true,
                ) + 1,
            forall|ai: int, bi: int|
                0 <= bi < t_nn@.len() && 0 <= ai < t_nn@[bi]@.len() ==> (
                #[trigger] t_nn@[bi]@[ai]) == vis_rel(
                    g, origin.x as int, origin.y as int, -1, -1, ai, bi,
                ),
            i <= n,
            cells@.len() == i,
            forall|j: int|
                0 <= j < i ==> (#[trigger] cells@[j]) == visible(
                    g,
                    origin,
                    radius as int,
                    Coordinate { x: (j % (w as int)) as i64, y: (j / (w as int)) as i64 },
                ),
        decreases n - i,
    {
        let x: usize = i % w;
        let y: usize = i / w;
        proof {
            vstd::arithmetic::div_mod::lemma_fundamental_div_mod(i as int, w as int);
            assert((y as int) < h) by (nonlinear_arith)
                requires
                    i as int == w * (y as int) + (x as int),
                    0 <= x < w,
                    i < w * h,
                    1 <= w;
        }
        let xneg: bool = (x as i64) < origin.x;
        let yneg: bool = (y as i64) < origin.y;
        let a: usize = if xneg {
            origin.x as usize - x
        } else {
            x - origin.x as usize
        };
        let bb: usize = if yneg {
            origin.y as usize - y
        } else {
            y - origin.y as usize
        };
        let cheb: usize = if a >= bb {
            a
        } else {
            bb
        };
        let in_radius: bool = (cheb as u64) <= (radius as u64);
        let vq: bool = if xneg {
            if yneg {
                t_nn[bb][a]
            } else {
                t_np[bb][a]
            }
        } else {
            if yneg {
                t_pn[bb][a]
            } else {
                t_pp[bb][a]
            }
        };
        let val = vq && in_radius;
        proof {
            let c = Coordinate { x: (i as int % (w as int)) as i64, y: (i as int / (w as int)) as i64 };
            assert(c.x == x as i64 && c.y == y as i64);
            assert(val == visible(g, origin, radius as int, c));
        }
        cells.push(val);
        i = i + 1;
    }
    let los = LineOfSight { width: w, height: h, cells };
    proof {
        assert forall|c: Coordinate| #[trigger] los.contains(c) == visible(
            g, origin, radius as int, c,
        ) by {
            if 0 <= c.x < w && 0 <= c.y < h {
                crate::map::lemma_row_index(w as int, h as int, c.x as int, c.y as int);
                let j = (c.y as int) * (w as int) + (c.x as int);
                vstd::arithmetic::div_mod::lemma_fundamental_div_mod_converse(
                    j, w as int, c.y as int, c.x as int,
                );
            }
        }
        assert(los@ =~= visible_set(g, origin, radius as int));
    }
    los
}

/// Refreshes the `is_visible` flag of every tile in a batch from the latest
/// visible set, leaving position and kind untouched — the bridge a renderer
/// uses after each recomputation.
pub fn update_tile_visibility(tiles: &mut Vec<Tile>, los: &LineOfSight)
    requires
        los.wf(),
    ensures
        final(tiles)@.len() == old(tiles)@.len(),
        forall|i: int|
            0 <= i < old(tiles)@.len() ==> {
                &&& (#[trigger] final(tiles)@[i]).pos == old(tiles)@[i].pos
                &&& final(tiles)@[i].tile_type == old(tiles)@[i].tile_type
                &&& final(tiles)@[i].is_visible == los.contains(old(tiles)@[i].pos)
            },
{
    let n = tiles.len();
    let mut i: usize = 0;
    while i < n
        invariant
            los.wf(),
            n == tiles@.len(),
            n == old(tiles)@.len(),
            i <= n,
            forall|j: int| i <= j < n ==> (#[trigger] tiles@[j]) == old(tiles)@[j],
            forall|j: int|
                0 <= j < i ==> {
                    &&& (#[trigger] tiles@[j]).pos == old(tiles)@[j].pos
                    &&& tiles@[j].tile_type == old(tiles)@[j].tile_type
                    &&& tiles@[j].is_visible == los.contains(old(tiles)@[j].pos)
                },
        decreases n - i,
    {
        let t = tiles[i];
        let vis = los.position_visible(t.pos);
        tiles[i] = Tile { pos: t.pos, tile_type: t.tile_type, is_visible: vis };
        i = i + 1;
    }
}

} // verus!

