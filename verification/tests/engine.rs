use grid_los::coords::Coordinate;
use grid_los::coords::Direction;
use grid_los::current_position::CurrentPosition;
use grid_los::engine::LosEngine;
use grid_los::map::Grid;
use grid_los::map::Tile;
use grid_los::map::TileType;

fn c(x: i64, y: i64) -> Coordinate {
    Coordinate::new(x, y)
}

#[test]
fn engine_starts_dirty_and_first_tick_computes() {
    let mut e = LosEngine::new(5, 5, 30);
    assert!(e.tick());
    assert!(!e.tick());
    assert!(e.is_visible(c(4, 4)));
}

#[test]
fn mutations_coalesce_into_one_recomputation() {
    let mut e = LosEngine::new(5, 5, 30);
    assert!(e.tick());
    assert!(e.toggle(c(1, 1)).is_some());
    assert!(e.move_to(c(2, 2)).is_some());
    assert!(e.toggle(c(3, 3)).is_some());
    assert!(e.tick());
    assert!(!e.tick());
}

#[test]
fn toggling_a_cell_twice_before_the_check_recomputes_once_to_baseline() {
    let mut e = LosEngine::new(5, 5, 30);
    assert!(e.move_to(c(2, 2)).is_some());
    assert!(e.tick());
    assert!(e.toggle(c(2, 3)).is_some());
    assert!(e.toggle(c(2, 3)).is_some());
    assert!(e.tick());
    assert!(!e.tick());
    let mut count = 0;
    for y in 0..5 {
        for x in 0..5 {
            if e.is_visible(c(x, y)) {
                count += 1;
            }
        }
    }
    assert_eq!(count, 25);
}

#[test]
fn out_of_bounds_mutations_are_no_ops_and_raise_nothing() {
    let mut e = LosEngine::new(5, 5, 30);
    assert!(e.tick());
    assert!(e.toggle(c(5, 0)).is_none());
    assert!(e.move_to(c(-1, 3)).is_none());
    assert!(!e.tick());
}

#[test]
fn moving_to_the_current_coordinate_is_a_no_op_and_raises_nothing() {
    let mut e = LosEngine::new(5, 5, 30);
    assert!(e.move_to(c(2, 2)).is_some());
    assert!(e.tick());
    assert!(e.move_to(c(2, 2)).is_none());
    assert_eq!(e.position(), c(2, 2));
    assert!(!e.tick());
    let grid = Grid::new(5, 5);
    let mut p = CurrentPosition::new(c(3, 3));
    assert!(!p.move_to(c(3, 3), &grid));
    assert_eq!(p.position(), c(3, 3));
}

#[test]
fn engine_is_synced_before_the_first_tick() {
    let e = LosEngine::new(5, 5, 30);
    for y in 0..5 {
        for x in 0..5 {
            assert!(e.is_visible(c(x, y)));
        }
    }
    assert!(!e.is_visible(c(5, 0)));
}

#[test]
fn visibility_is_stale_until_the_next_tick() {
    let mut e = LosEngine::new(5, 5, 30);
    assert!(e.move_to(c(2, 2)).is_some());
    assert!(e.tick());
    assert!(e.is_visible(c(2, 4)));
    assert!(e.toggle(c(2, 3)).is_some());
    assert!(e.is_visible(c(2, 4)));
    assert!(e.tick());
    assert!(!e.is_visible(c(2, 4)));
}

#[test]
fn steps_move_the_viewer_and_edge_steps_are_rejected() {
    let mut e = LosEngine::new(5, 5, 30);
    assert_eq!(e.position(), c(0, 0));
    assert!(e.step(Direction::South).is_none());
    assert!(e.step(Direction::West).is_none());
    assert_eq!(e.position(), c(0, 0));
    assert!(e.step(Direction::North).is_some());
    assert!(e.step(Direction::East).is_some());
    assert_eq!(e.position(), c(1, 1));
}

#[test]
fn current_position_moves_within_bounds_only() {
    let grid = Grid::new(5, 5);
    let mut p = CurrentPosition::new(c(0, 0));
    assert!(p.move_to(c(4, 4), &grid));
    assert_eq!(p.position(), c(4, 4));
    assert!(!p.move_to(c(5, 4), &grid));
    assert_eq!(p.position(), c(4, 4));
    assert!(!p.step(Direction::North, &grid));
    assert!(p.step(Direction::West, &grid));
    assert_eq!(p.position(), c(3, 4));
}

#[test]
fn tile_toggle_type_flips_only_the_kind() {
    let mut t = Tile { pos: c(1, 2), tile_type: TileType::Floor, is_visible: true };
    t.toggle_type();
    assert_eq!(t.tile_type, TileType::Wall);
    assert_eq!(t.pos, c(1, 2));
    assert!(t.is_visible);
    t.toggle_type();
    assert_eq!(t.tile_type, TileType::Floor);
}

#[test]
fn engine_get_reads_the_grid_through_the_same_policy() {
    let mut e = LosEngine::new(5, 5, 30);
    assert_eq!(e.get(c(2, 2)), TileType::Floor);
    assert!(e.toggle(c(2, 2)).is_some());
    assert_eq!(e.get(c(2, 2)), TileType::Wall);
    assert_eq!(e.get(c(9, 9)), TileType::Wall);
}
