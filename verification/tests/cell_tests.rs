use battlesnake_game_types::compact_representation::{Cell, CellIndex};
use battlesnake_game_types::types::SnakeId;
use battlesnake_game_types::wire_representation::Position;

#[test]
fn test_set_hazard() {
    let mut c: Cell = Cell::empty();
    c.set_food();
    assert!(c.is_food());
    c.set_hazard();
    assert!(c.is_food());
    assert!(c.is_hazard());
    assert!(!c.is_head());
    assert!(!c.is_body());
}

#[test]
fn test_clear_hazard() {
    let mut c: Cell = Cell::empty();
    c.set_food();
    assert!(c.is_food());
    c.set_hazard();
    c.clear_hazard();
    assert!(c.is_food());
    assert!(!c.is_hazard());
    assert!(!c.is_head());
    assert!(!c.is_body());
    let mut c: Cell = Cell::make_double_stacked_piece(SnakeId(0), CellIndex(0));
    c.set_hazard();
    c.clear_hazard();
    assert!(c.is_body());
    assert!(!c.is_hazard());
}

#[test]
fn test_remove() {
    let mut c: Cell = Cell::make_body_piece(SnakeId(3), CellIndex(17));
    c.remove();
    c.set_hazard();
    assert!(c.is_empty());
    assert!(c.is_hazard());
    assert!(c.get_snake_id().is_none());
    assert!(c.get_idx() == CellIndex(0));
}

#[test]
fn test_set_food() {
    let mut c: Cell = Cell::empty();
    c.set_food();
    c.set_hazard();
    assert!(c.is_food());
    assert!(c.is_hazard());
    assert!(c.get_snake_id().is_none());
    assert!(c.get_idx() == CellIndex(0));
}

#[test]
fn test_set_head() {
    let mut c: Cell = Cell::empty();
    c.set_head(SnakeId(3), CellIndex(17));
    c.set_hazard();
    assert!(c.is_head());
    assert!(c.is_hazard());
    assert!(c.get_snake_id().unwrap() == SnakeId(3));
    assert!(c.get_idx() == CellIndex(17));
}

#[test]
fn test_cell_round_trips() {
    let mut c: Cell = Cell::empty();
    c.set_body_piece(SnakeId(3), CellIndex::new(Position::new(1, 2), 11));
    let as_u32 = c.pack_as_u32();
    assert_eq!(c, Cell::from_u32(as_u32));
}

#[test]
fn test_head_cell_round_trips_with_hazard() {
    let mut c: Cell = Cell::make_snake_head(SnakeId(2), CellIndex(77));
    c.set_hazard();
    assert_eq!(c, Cell::from_u32(c.pack_as_u32()));
    let mut t: Cell = Cell::make_triple_stacked_piece(SnakeId(1));
    assert_eq!(t, Cell::from_u32(t.pack_as_u32()));
    t.set_food();
    assert_eq!(t, Cell::from_u32(t.pack_as_u32()));
}

#[test]
fn test_cell_index_round_trips_through_position() {
    let ci = CellIndex::new(Position::new(7, 3), 11);
    assert_eq!(ci, CellIndex(3 * 11 + 7));
    let p = ci.into_position(11);
    assert_eq!(p, Position::new(7, 3));
}
