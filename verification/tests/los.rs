use grid_los::coords::Coordinate;
use grid_los::line_of_sight::LineOfSight;
use grid_los::line_of_sight::compute;
use grid_los::map::Grid;
use grid_los::map::TileType;

fn c(x: i64, y: i64) -> Coordinate {
    Coordinate::new(x, y)
}

fn visible_cells(los: &LineOfSight, w: i64, h: i64) -> Vec<(i64, i64)> {
    let mut out = Vec::new();
    for y in 0..h {
        for x in 0..w {
            if los.position_visible(c(x, y)) {
                out.push((x, y));
            }
        }
    }
    out
}

#[test]
fn open_field_5x5_all_visible() {
    let grid = Grid::new(5, 5);
    let los = compute(&grid, c(2, 2), 30);
    assert_eq!(visible_cells(&los, 5, 5).len(), 25);
}

#[test]
fn single_wall_shadows_cell_behind_but_allows_diagonal_peek() {
    let mut grid = Grid::new(5, 5);
    assert!(grid.toggle(c(2, 3)));
    let los = compute(&grid, c(2, 2), 30);
    assert!(los.position_visible(c(2, 3)));
    assert!(!los.position_visible(c(2, 4)));
    assert!(los.position_visible(c(1, 4)));
    assert!(los.position_visible(c(3, 4)));
}

#[test]
fn corner_viewer_radius_one() {
    let grid = Grid::new(5, 5);
    let los = compute(&grid, c(0, 0), 1);
    let vis = visible_cells(&los, 5, 5);
    assert_eq!(vis, vec![(0, 0), (1, 0), (0, 1), (1, 1)]);
}

#[test]
fn surrounded_viewer_sees_only_itself_and_the_four_walls() {
    let mut grid = Grid::new(5, 5);
    for w in [c(2, 1), c(1, 2), c(3, 2), c(2, 3)] {
        assert!(grid.toggle(w));
    }
    let los = compute(&grid, c(2, 2), 30);
    let mut vis = visible_cells(&los, 5, 5);
    vis.sort();
    assert_eq!(vis, vec![(1, 2), (2, 1), (2, 2), (2, 3), (3, 2)]);
}

#[test]
fn compute_is_deterministic() {
    let mut grid = Grid::new(7, 7);
    for w in [c(3, 1), c(1, 4), c(5, 5), c(2, 2)] {
        assert!(grid.toggle(w));
    }
    let a = compute(&grid, c(3, 3), 30);
    let b = compute(&grid, c(3, 3), 30);
    assert_eq!(visible_cells(&a, 7, 7), visible_cells(&b, 7, 7));
}

#[test]
fn origin_always_visible_even_on_a_wall() {
    let mut grid = Grid::new(5, 5);
    assert!(grid.toggle(c(2, 2)));
    let los = compute(&grid, c(2, 2), 0);
    assert!(los.position_visible(c(2, 2)));
}

#[test]
fn radius_zero_shows_only_the_origin() {
    let grid = Grid::new(5, 5);
    let los = compute(&grid, c(2, 2), 0);
    assert_eq!(visible_cells(&los, 5, 5), vec![(2, 2)]);
}

#[test]
fn boundary_containment_chebyshev() {
    let grid = Grid::new(9, 9);
    let los = compute(&grid, c(4, 4), 2);
    for (x, y) in visible_cells(&los, 9, 9) {
        let cheb = (x - 4).abs().max((y - 4).abs());
        assert!(cheb <= 2);
    }
    assert_eq!(visible_cells(&los, 9, 9).len(), 25);
}

#[test]
fn adding_a_wall_never_adds_visible_cells() {
    let mut open = Grid::new(7, 7);
    for w in [c(3, 1), c(5, 4)] {
        assert!(open.toggle(w));
    }
    let mut walled = Grid::new(7, 7);
    for w in [c(3, 1), c(5, 4), c(2, 3)] {
        assert!(walled.toggle(w));
    }
    let before = compute(&open, c(3, 3), 30);
    let after = compute(&walled, c(3, 3), 30);
    for y in 0..7 {
        for x in 0..7 {
            if after.position_visible(c(x, y)) {
                assert!(before.position_visible(c(x, y)));
            }
        }
    }
}

#[test]
fn out_of_bounds_cells_read_as_walls_and_are_never_visible() {
    let grid = Grid::new(5, 5);
    assert_eq!(grid.get(c(-1, 0)), TileType::Wall);
    assert_eq!(grid.get(c(0, 5)), TileType::Wall);
    assert_eq!(grid.get(c(3, 3)), TileType::Floor);
    let los = compute(&grid, c(0, 0), 30);
    assert!(!los.position_visible(c(-1, 0)));
    assert!(!los.position_visible(c(5, 2)));
}

#[test]
fn toggle_flips_and_rejects_out_of_bounds() {
    let mut grid = Grid::new(5, 5);
    assert_eq!(grid.get(c(1, 1)), TileType::Floor);
    assert!(grid.toggle(c(1, 1)));
    assert_eq!(grid.get(c(1, 1)), TileType::Wall);
    assert!(grid.toggle(c(1, 1)));
    assert_eq!(grid.get(c(1, 1)), TileType::Floor);
    assert!(!grid.toggle(c(5, 0)));
    assert!(!grid.toggle(c(0, -1)));
}

#[test]
fn update_tile_visibility_refreshes_only_the_flag() {
    let mut grid = Grid::new(5, 5);
    assert!(grid.toggle(c(2, 3)));
    let los = compute(&grid, c(2, 2), 30);
    let mut tiles = vec![
        grid_los::map::Tile { pos: c(2, 3), tile_type: TileType::Wall, is_visible: false },
        grid_los::map::Tile { pos: c(2, 4), tile_type: TileType::Floor, is_visible: true },
    ];
    grid_los::line_of_sight::update_tile_visibility(&mut tiles, &los);
    assert!(tiles[0].is_visible);
    assert_eq!(tiles[0].tile_type, TileType::Wall);
    assert_eq!(tiles[0].pos, c(2, 3));
    assert!(!tiles[1].is_visible);
}

#[test]
fn walls_block_an_entire_column_behind_them() {
    let mut grid = Grid::new(5, 9);
    assert!(grid.toggle(c(2, 5)));
    let los = compute(&grid, c(2, 4), 30);
    assert!(los.position_visible(c(2, 5)));
    for y in 6..9 {
        assert!(!los.position_visible(c(2, y)));
    }
}
