//! Proved properties of the line-of-sight relation: determinism, origin
//! inclusion, monotonicity under added opacity, boundary containment, and
//! completeness on an open field.

use vstd::prelude::*;
use crate::coords::Coordinate;
use crate::coords::chebyshev;
use crate::line_of_sight::LineOfSight;
use crate::line_of_sight::passes;
use crate::line_of_sight::vis_high;
use crate::line_of_sight::vis_low;
use crate::line_of_sight::visible;
use crate::map::Grid;
use crate::map::TileType;

verus! {

/// Determinism: the visibility relation pins the visible set down, so two
/// computations over the same grid, origin and radius produce the same set,
/// independent of call history.
pub proof fn lemma_compute_deterministic(
    s1: LineOfSight,
    s2: LineOfSight,
    g: Grid,
    o: Coordinate,
    radius: int,
)
    requires
        forall|c: Coordinate| #[trigger] s1.contains(c) == visible(g, o, radius, c),
        forall|c: Coordinate| #[trigger] s2.contains(c) == visible(g, o, radius, c),
    ensures
        s1@ == s2@,
{
    assert(s1@ =~= s2@);
}

/// Origin inclusion: the origin is visible from itself on every well-formed
/// grid, for every nonnegative radius, whatever tile the viewer stands on.
pub proof fn lemma_origin_visible(g: Grid, o: Coordinate, radius: int)
    requires
        g.wf(),
        g.coord_in_bounds(o),
        radius >= 0,
    ensures
        visible(g, o, radius, o),
{
    assert(vis_high(g, o.x as int, o.y as int, 1, 1, 0, 0));
}

/// Sight through a pointwise more opaque grid implies sight through the
/// less opaque one, for the half of a quadrant at or above its diagonal.
proof fn lemma_vis_high_monotone(
    g1: Grid,
    g2: Grid,
    ox: int,
    oy: int,
    sx: int,
    sy: int,
    a: int,
    b: int,
)
    requires
        forall|x: int, y: int| #[trigger] g2.transparent(x, y) ==> g1.transparent(x, y),
    ensures
        vis_high(g2, ox, oy, sx, sy, a, b) ==> vis_high(g1, ox, oy, sx, sy, a, b),
    decreases b,
{
    if 0 <= a && a <= b && b > 0 {
        if a == 0 {
            lemma_vis_high_monotone(g1, g2, ox, oy, sx, sy, 0, b - 1);
        } else if a == b {
            lemma_vis_high_monotone(g1, g2, ox, oy, sx, sy, a - 1, b - 1);
        } else {
            let q = a * (b - 1);
            let p = q / b;
            lemma_vis_high_monotone(g1, g2, ox, oy, sx, sy, p, b - 1);
            lemma_vis_high_monotone(g1, g2, ox, oy, sx, sy, p + 1, b - 1);
        }
    }
}

/// The mirror of `lemma_vis_high_monotone` for the half below the diagonal.
proof fn lemma_vis_low_monotone(
    g1: Grid,
    g2: Grid,
    ox: int,
    oy: int,
    sx: int,
    sy: int,
    a: int,
    b: int,
)
    requires
        forall|x: int, y: int| #[trigger] g2.transparent(x, y) ==> g1.transparent(x, y),
    ensures
        vis_low(g2, ox, oy, sx, sy, a, b) ==> vis_low(g1, ox, oy, sx, sy, a, b),
    decreases a,
{
    if 0 <= b && b < a {
        if b == 0 {
            if a > 1 {
                lemma_vis_low_monotone(g1, g2, ox, oy, sx, sy, a - 1, 0);
            }
        } else {
            let q = b * (a - 1);
            let p = q / a;
            lemma_vis_high_monotone(g1, g2, ox, oy, sx, sy, a - 1, a - 1);
            lemma_vis_low_monotone(g1, g2, ox, oy, sx, sy, a - 1, p);
            lemma_vis_low_monotone(g1, g2, ox, oy, sx, sy, a - 1, p + 1);
        }
    }
}

/// Monotonic opacity: turning one floor cell of a grid into a wall can only
/// remove coordinates from the visible set, never add any; the walled cell
/// itself may stay visible, since a wall is lit from the viewer's side.
pub proof fn lemma_opacity_monotone(
    g1: Grid,
    g2: Grid,
    w: Coordinate,
    o: Coordinate,
    radius: int,
    c: Coordinate,
)
    requires
        g1.width == g2.width,
        g1.height == g2.height,
        g1.cell(w.x as int, w.y as int) == TileType::Floor,
        g2.cell(w.x as int, w.y as int) == TileType::Wall,
        forall|x: int, y: int|
            !(x == w.x as int && y == w.y as int) ==> #[trigger] g2.cell(x, y) == g1.cell(x, y),
    ensures
        visible(g2, o, radius, c) ==> visible(g1, o, radius, c),
{
    assert forall|x: int, y: int| #[trigger] g2.transparent(x, y) implies g1.transparent(
        x, y,
    ) by {
        if !(x == w.x as int && y == w.y as int) {
            assert(g2.cell(x, y) == g1.cell(x, y));
        }
    }
    let a = vstd::math::abs(c.x - o.x) as int;
    let b = vstd::math::abs(c.y - o.y) as int;
    let sx: int = if c.x >= o.x { 1 } else { -1 };
    let sy: int = if c.y >= o.y { 1 } else { -1 };
    if a <= b {
        lemma_vis_high_monotone(g1, g2, o.x as int, o.y as int, sx, sy, a, b);
    } else {
        lemma_vis_low_monotone(g1, g2, o.x as int, o.y as int, sx, sy, a, b);
    }
}

/// Boundary containment: no coordinate farther from the origin than the
/// radius, in Chebyshev distance, is ever visible.
pub proof fn lemma_boundary_containment(g: Grid, o: Coordinate, radius: int, c: Coordinate)
    ensures
        visible(g, o, radius, c) ==> chebyshev(o, c) <= radius,
{
}

/// Where the sight line to `(a, b)` crosses the previous ring: the crossing
/// cell index stays strictly below `a`.
proof fn lemma_cross_bound(a: int, b: int)
    requires
        1 <= a < b,
    ensures
        0 <= a * (b - 1) / b < a,
{
    let q = a * (b - 1);
    vstd::arithmetic::div_mod::lemma_fundamental_div_mod(q, b);
    assert(0 <= q / b < a) by (nonlinear_arith)
        requires
            q == a * (b - 1),
            q == b * (q / b) + (q % b),
            0 <= q % b < b,
            1 <= a,
            2 <= b;
}

/// On an all-floor grid, sight reaches every in-bounds cell at or above a
/// quadrant's diagonal: with nothing opaque anywhere, every crossing cell
/// between the origin and the target is transparent.
proof fn lemma_vis_high_open(g: Grid, ox: int, oy: int, sx: int, sy: int, a: int, b: int)
    requires
        g.wf(),
        forall|x: int, y: int| g.in_bounds(x, y) ==> #[trigger] g.cell(x, y) == TileType::Floor,
        0 <= ox < g.width,
        0 <= oy < g.height,
        sx == 1 || sx == -1,
        sy == 1 || sy == -1,
        0 <= a <= b,
        g.in_bounds(ox + sx * a, oy + sy * b),
    ensures
        vis_high(g, ox, oy, sx, sy, a, b),
    decreases b,
{
    if b > 0 {
        let (pa, pb): (int, int) = if a == 0 {
            (0, b - 1)
        } else if a == b {
            (a - 1, b - 1)
        } else {
            let p = a * (b - 1) / b;
            let r = a * (b - 1) % b;
            lemma_cross_bound(a, b);
            if 2 * r < b {
                (p, b - 1)
            } else {
                (p + 1, b - 1)
            }
        };
        assert(0 <= pa <= a && 0 <= pb <= b);
        assert(0 <= ox + sx * pa < g.width && 0 <= oy + sy * pb < g.height) by (nonlinear_arith)
            requires
                sx == 1 || sx == -1,
                sy == 1 || sy == -1,
                0 <= pa <= a,
                0 <= pb <= b,
                0 <= ox < g.width,
                0 <= oy < g.height,
                0 <= ox + sx * a < g.width,
                0 <= oy + sy * b < g.height;
        lemma_vis_high_open(g, ox, oy, sx, sy, pa, pb);
        assert(passes(g, ox, oy, sx, sy, pa, pb));
        if a == b {
            assert(0 <= ox + sx * a < g.width && 0 <= oy + sy * (b - 1) < g.height)
                by (nonlinear_arith)
                requires
                    sx == 1 || sx == -1,
                    sy == 1 || sy == -1,
                    0 <= a,
                    0 <= b - 1 <= b,
                    0 <= ox < g.width,
                    0 <= oy < g.height,
                    0 <= ox + sx * a < g.width,
                    0 <= oy + sy * b < g.height;
            assert(g.transparent(ox + sx * a, oy + sy * (b - 1)));
        }
    }
}

/// The mirror of `lemma_vis_high_open` for the half below the diagonal.
proof fn lemma_vis_low_open(g: Grid, ox: int, oy: int, sx: int, sy: int, a: int, b: int)
    requires
        g.wf(),
        forall|x: int, y: int| g.in_bounds(x, y) ==> #[trigger] g.cell(x, y) == TileType::Floor,
        0 <= ox < g.width,
        0 <= oy < g.height,
        sx == 1 || sx == -1,
        sy == 1 || sy == -1,
        0 <= b < a,
        g.in_bounds(ox + sx * a, oy + sy * b),
    ensures
        vis_low(g, ox, oy, sx, sy, a, b),
    decreases a,
{
    let (pa, pb): (int, int) = if b == 0 {
        (a - 1, 0)
    } else {
        let p = b * (a - 1) / a;
        let r = b * (a - 1) % a;
        lemma_cross_bound(b, a);
        if 2 * r < a {
            (a - 1, p)
        } else {
            (a - 1, p + 1)
        }
    };
    assert(0 <= pa <= a && 0 <= pb <= b);
    assert(0 <= ox + sx * pa < g.width && 0 <= oy + sy * pb < g.height) by (nonlinear_arith)
        requires
            sx == 1 || sx == -1,
            sy == 1 || sy == -1,
            0 <= pa <= a,
            0 <= pb <= b,
            0 <= ox < g.width,
            0 <= oy < g.height,
            0 <= ox + sx * a < g.width,
            0 <= oy + sy * b < g.height;
    if pb == pa {
        lemma_vis_high_open(g, ox, oy, sx, sy, pa, pb);
    } else if pa > 0 || pb > 0 {
        lemma_vis_low_open(g, ox, oy, sx, sy, pa, pb);
    }
    assert(passes(g, ox, oy, sx, sy, pa, pb));
}

/// Open-field completeness: on an all-floor grid the visible set is exactly
/// every in-bounds coordinate within the radius of the origin, bounded only
/// by the grid's edges.
pub proof fn lemma_open_field(g: Grid, o: Coordinate, radius: int, c: Coordinate)
    requires
        g.wf(),
        g.coord_in_bounds(o),
        forall|x: int, y: int| g.in_bounds(x, y) ==> #[trigger] g.cell(x, y) == TileType::Floor,
        radius >= 0,
    ensures
        visible(g, o, radius, c) == (g.coord_in_bounds(c) && chebyshev(o, c) <= radius),
{
    if g.coord_in_bounds(c) && chebyshev(o, c) <= radius {
        let a = vstd::math::abs(c.x - o.x) as int;
        let b = vstd::math::abs(c.y - o.y) as int;
        let sx: int = if c.x >= o.x { 1 } else { -1 };
        let sy: int = if c.y >= o.y { 1 } else { -1 };
        if c.x >= o.x {
            assert(sx * a == a) by (nonlinear_arith)
                requires sx == 1;
        } else {
            assert(sx * a == -a) by (nonlinear_arith)
                requires sx == -1;
        }
        if c.y >= o.y {
            assert(sy * b == b) by (nonlinear_arith)
                requires sy == 1;
        } else {
            assert(sy * b == -b) by (nonlinear_arith)
                requires sy == -1;
        }
        assert(o.x + sx * a == c.x && o.y + sy * b == c.y);
        if a <= b {
            lemma_vis_high_open(g, o.x as int, o.y as int, sx, sy, a, b);
        } else {
            lemma_vis_low_open(g, o.x as int, o.y as int, sx, sy, a, b);
        }
    }
}

} // verus!
