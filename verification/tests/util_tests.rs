use battlesnake_game_types::cross_product::cross_product;
use battlesnake_game_types::hazard_algorithms::{
    is_perfect_odd_square, next_perfect_odd_square, ForwardOnlyHazardAlgorithm, SpiralHazard,
};
use battlesnake_game_types::types::Move;
use battlesnake_game_types::wire_representation::Position;
use itertools::Itertools;

#[test]
fn test_crossproduct() {
    let values = vec![vec![1, 2], vec![3, 4], vec![5, 6]];
    let mut cp = cross_product(values.clone());
    let mut from_crate = values
        .into_iter()
        .multi_cartesian_product()
        .collect::<Vec<_>>();
    cp.sort();
    from_crate.sort();
    assert_eq!(cp, from_crate);

    for x in cp {
        println!("{:?}", x)
    }
    for x in from_crate {
        println!("{:?}", x)
    }
}

#[test]
fn test_next_perfect_square() {
    assert_eq!(9, next_perfect_odd_square(1));
    assert_eq!(9, next_perfect_odd_square(2));
    assert_eq!(9, next_perfect_odd_square(8));
    assert_eq!(25, next_perfect_odd_square(9));
}

#[test]
fn test_is_odd_perfect_square() {
    assert!(is_perfect_odd_square(1));
    assert!(!is_perfect_odd_square(4));
    assert!(is_perfect_odd_square(9));
    assert!(is_perfect_odd_square(25));
}

#[test]
fn test_spiral_alg() {
    let mut s = SpiralHazard {
        hazard_every_turns: 3,
        seed_cell: Position { x: 0, y: 0 },
        first_turn_seen: 3,
        current_turn: 3,
        next_hazard_cell: Position { x: 0, y: 1 },
        direction: Move::Right,
    };
    assert!(s.inc_turn().is_none());
    assert!(s.inc_turn().is_none());
    assert!(s.inc_turn().unwrap() == Position { x: 0, y: 1 });
    assert!(s.inc_turn().is_none());
    assert!(s.inc_turn().is_none());
    assert!(s.inc_turn().unwrap() == Position { x: 1, y: 1 });
    assert!(s.inc_turn().is_none());
    assert!(s.inc_turn().is_none());
    assert!(s.inc_turn().unwrap() == Position { x: 1, y: 0 });
    assert!(s.inc_turn().is_none());
    assert!(s.inc_turn().is_none());
    assert!(s.inc_turn().unwrap() == Position { x: 1, y: -1 });
    assert!(s.inc_turn().is_none());
    assert!(s.inc_turn().is_none());
    assert!(s.inc_turn().unwrap() == Position { x: 0, y: -1 });
    assert!(s.inc_turn().is_none());
    assert!(s.inc_turn().is_none());
    assert!(s.inc_turn().unwrap() == Position { x: -1, y: -1 });
    assert!(s.inc_turn().is_none());
    assert!(s.inc_turn().is_none());
    assert!(s.inc_turn().unwrap() == Position { x: -1, y: 0 });
    assert!(s.inc_turn().is_none());
    assert!(s.inc_turn().is_none());
    assert!(s.inc_turn().unwrap() == Position { x: -1, y: 1 });
    assert!(s.inc_turn().is_none());
    assert!(s.inc_turn().is_none());
    assert!(s.inc_turn().unwrap() == Position { x: -1, y: 2 });
    assert!(s.inc_turn().is_none());
    assert!(s.inc_turn().is_none());
    assert!(s.inc_turn().unwrap() == Position { x: 0, y: 2 });
    assert!(s.inc_turn().is_none());
    assert!(s.inc_turn().is_none());
    assert!(s.inc_turn().unwrap() == Position { x: 1, y: 2 });
    assert!(s.inc_turn().is_none());
    assert!(s.inc_turn().is_none());
    assert!(s.inc_turn().unwrap() == Position { x: 2, y: 2 });
    assert!(s.inc_turn().is_none());
    assert!(s.inc_turn().is_none());
    assert!(s.inc_turn().unwrap() == Position { x: 2, y: 1 });
    assert!(s.inc_turn().is_none());
    assert!(s.inc_turn().is_none());
    assert!(s.inc_turn().unwrap() == Position { x: 2, y: 0 });
    assert!(s.inc_turn().is_none());
    assert!(s.inc_turn().is_none());
    assert!(s.inc_turn().unwrap() == Position { x: 2, y: -1 });
    assert!(s.inc_turn().is_none());
    assert!(s.inc_turn().is_none());
    assert!(s.inc_turn().unwrap() == Position { x: 2, y: -2 });
    assert!(s.inc_turn().is_none());
    assert!(s.inc_turn().is_none());
    assert!(s.inc_turn().unwrap() == Position { x: 1, y: -2 });
    assert!(s.inc_turn().is_none());
    assert!(s.inc_turn().is_none());
    assert!(s.inc_turn().unwrap() == Position { x: 0, y: -2 });
    assert!(s.inc_turn().is_none());
    assert!(s.inc_turn().is_none());
    assert!(s.inc_turn().unwrap() == Position { x: -1, y: -2 });
    assert!(s.inc_turn().is_none());
    assert!(s.inc_turn().is_none());
    assert!(s.inc_turn().unwrap() == Position { x: -2, y: -2 });
    assert!(s.inc_turn().is_none());
    assert!(s.inc_turn().is_none());
    assert!(s.inc_turn().unwrap() == Position { x: -2, y: -1 });
    assert!(s.inc_turn().is_none());
    assert!(s.inc_turn().is_none());
    assert!(s.inc_turn().unwrap() == Position { x: -2, y: 0 });
    assert!(s.inc_turn().is_none());
    assert!(s.inc_turn().is_none());
    assert!(s.inc_turn().unwrap() == Position { x: -2, y: 1 });
    assert!(s.inc_turn().is_none());
    assert!(s.inc_turn().is_none());
    assert!(s.inc_turn().unwrap() == Position { x: -2, y: 2 });
    assert!(s.inc_turn().is_none());
    assert!(s.inc_turn().is_none());
    assert!(s.inc_turn().unwrap() == Position { x: -2, y: 3 });
    assert!(s.inc_turn().is_none());
    assert!(s.inc_turn().is_none());
    assert!(s.inc_turn().unwrap() == Position { x: -1, y: 3 });
}

#[test]
fn test_move_all_order_matches_iter() {
    let mut iter = Move::all_iter();
    let mut collected: Vec<Move> = Vec::new();
    while let Some(m) = iter.next() {
        collected.push(m);
    }
    assert_eq!(Move::all().to_vec(), collected);
}

#[test]
fn test_move_index_round_trips() {
    for i in 0..4usize {
        assert_eq!(Move::from_index(i).as_index(), i);
    }
    assert!(Move::Up.is_not_opposite(&Move::Left));
    assert!(!Move::Up.is_not_opposite(&Move::Down));
}
