use battlesnake_game_types::compact_representation::convert::ConvertError;
use battlesnake_game_types::compact_representation::{standard, wrapped, CellIndex};
use battlesnake_game_types::types::{build_snake_id_map, Move, SimulatorInstruments, SnakeId};
use battlesnake_game_types::wire_representation::{
    BattleSnake, Board, Game, NestedGame, Position, Ruleset, Settings,
};

#[derive(Debug)]
struct Instruments;

impl SimulatorInstruments for Instruments {
    fn observe_simulation(&self, _duration_micros: u64) {}
}

#[derive(Debug)]
struct CountingInstruments(std::cell::Cell<u32>);

impl SimulatorInstruments for CountingInstruments {
    fn observe_simulation(&self, _duration_micros: u64) {
        self.0.set(self.0.get() + 1);
    }
}

fn snake(id: &str, body: &[(i32, i32)], health: i32) -> BattleSnake {
    let positions: Vec<Position> = body.iter().map(|&(x, y)| Position::new(x, y)).collect();
    BattleSnake {
        id: id.to_string(),
        name: id.to_string(),
        head: positions[0],
        body: positions,
        health,
        shout: None,
        actual_length: None,
    }
}

fn game(
    width: u32,
    height: u32,
    snakes: Vec<BattleSnake>,
    food: &[(i32, i32)],
    hazards: &[(i32, i32)],
    ruleset_name: &str,
    hazard_damage: Option<i32>,
) -> Game {
    let settings = hazard_damage.map(|hd| Settings {
        food_spawn_chance: 15,
        minimum_food: 1,
        hazard_damage_per_turn: hd,
        hazard_map: None,
        hazard_map_author: None,
        royale: None,
    });
    Game {
        you: snakes[0].clone(),
        board: Board {
            height,
            width,
            food: food.iter().map(|&(x, y)| Position::new(x, y)).collect(),
            snakes,
            hazards: hazards.iter().map(|&(x, y)| Position::new(x, y)).collect(),
        },
        turn: 0,
        game: NestedGame {
            id: "game".to_string(),
            ruleset: Ruleset {
                name: ruleset_name.to_string(),
                version: "v1".to_string(),
                settings,
            },
            timeout: 500,
            map: None,
            source: None,
        },
    }
}

fn standard_board(g: &Game) -> standard::CellBoard {
    let map = build_snake_id_map(g);
    standard::CellBoard::convert_from_game(g, &map, 121, 4).unwrap()
}

fn wrapped_board(g: &Game) -> wrapped::CellBoard {
    let map = build_snake_id_map(g);
    wrapped::CellBoard::convert_from_game(g, &map, 121, 4).unwrap()
}

fn kind_code_at(packed: &battlesnake_game_types::compact_representation::cell_board::PackedCellBoard, x: i32, y: i32) -> u32 {
    packed.cells[(y * 11 + x) as usize] & 0x07
}

/// Spawn: four triple-stacked agents all moving up leave each agent at
/// length three, health ninety-nine, with the spawn square demoted to a
/// double stack under the new head.
#[test]
fn test_spawn_all_up() {
    let g = game(
        11,
        11,
        vec![
            snake("a", &[(1, 1), (1, 1), (1, 1)], 100),
            snake("b", &[(9, 1), (9, 1), (9, 1)], 100),
            snake("c", &[(1, 9), (1, 9), (1, 9)], 100),
            snake("d", &[(9, 9), (9, 9), (9, 9)], 100),
        ],
        &[],
        &[],
        "standard",
        None,
    );
    let board = standard_board(&g);
    assert!(board.assert_consistency());
    let moves = vec![
        (SnakeId(0), vec![Move::Up]),
        (SnakeId(1), vec![Move::Up]),
        (SnakeId(2), vec![Move::Up]),
        (SnakeId(3), vec![Move::Up]),
    ];
    let results = board.simulate_with_moves(&Instruments, &moves);
    assert_eq!(results.len(), 1);
    let after = &results[0].1;
    assert!(after.assert_consistency());
    for i in 0..4u8 {
        assert_eq!(after.get_health(&SnakeId(i)), 99);
        assert_eq!(after.get_length(SnakeId(i)), 3);
    }
    assert_eq!(after.get_head_as_position(&SnakeId(0)), Position::new(1, 2));
    // the spawn square under the new head is now a double stack
    let packed = after.pack_as_hash();
    assert_eq!(kind_code_at(&packed, 1, 1), 2);
    assert_eq!(kind_code_at(&packed, 1, 2), 6);
}

/// Starvation: an agent at health one moving onto a plain square dies,
/// and the winner is the agent left standing.
#[test]
fn test_starvation_and_winner() {
    let g = game(
        11,
        11,
        vec![
            snake("a", &[(5, 5), (5, 4), (5, 3)], 1),
            snake("b", &[(0, 0), (1, 0), (2, 0)], 50),
        ],
        &[],
        &[],
        "standard",
        None,
    );
    let board = standard_board(&g);
    let moves = vec![(SnakeId(0), vec![Move::Up]), (SnakeId(1), vec![Move::Up])];
    let results = board.simulate_with_moves(&Instruments, &moves);
    assert_eq!(results.len(), 1);
    let after = &results[0].1;
    assert_eq!(after.get_health(&SnakeId(0)), 0);
    assert!(after.is_over());
    assert_eq!(after.get_winner(), Some(SnakeId(1)));
    assert!(after.assert_consistency());
}

/// Food: eating grows the agent by one, restores health to one hundred,
/// doubles the new tail square and consumes the food.
#[test]
fn test_food_growth() {
    let g = game(
        11,
        11,
        vec![snake("a", &[(5, 5), (5, 4), (5, 3)], 90)],
        &[(5, 6)],
        &[],
        "standard",
        None,
    );
    let board = standard_board(&g);
    let results = board.simulate_with_moves(&Instruments, &vec![(SnakeId(0), vec![Move::Up])]);
    assert_eq!(results.len(), 1);
    let after = &results[0].1;
    assert_eq!(after.get_health(&SnakeId(0)), 100);
    assert_eq!(after.get_length(SnakeId(0)), 4);
    assert!(after.assert_consistency());
    let packed = after.pack_as_hash();
    // the new head overwrote the food; the tail square is double stacked
    assert_eq!(kind_code_at(&packed, 5, 6), 6);
    assert_eq!(kind_code_at(&packed, 5, 4), 2);
    assert_eq!(after.get_all_food_as_native_positions().len(), 0);
}

/// Head-to-head, unequal lengths: the longer agent survives on the shared
/// square and the shorter one is removed entirely.
#[test]
fn test_head_to_head_unequal() {
    let g = game(
        11,
        11,
        vec![
            snake("a", &[(4, 5), (3, 5), (2, 5), (1, 5), (0, 5)], 80),
            snake("b", &[(6, 5), (7, 5), (8, 5), (9, 5)], 80),
        ],
        &[],
        &[],
        "standard",
        None,
    );
    let board = standard_board(&g);
    let moves = vec![
        (SnakeId(0), vec![Move::Right]),
        (SnakeId(1), vec![Move::Left]),
    ];
    let results = board.simulate_with_moves(&Instruments, &moves);
    assert_eq!(results.len(), 1);
    let after = &results[0].1;
    assert!(after.get_health(&SnakeId(0)) > 0);
    assert_eq!(after.get_health(&SnakeId(1)), 0);
    assert_eq!(after.get_head_as_position(&SnakeId(0)), Position::new(5, 5));
    assert!(after.assert_consistency());
    // no square of the loser remains
    let packed = after.pack_as_hash();
    for x in 6..10 {
        assert_eq!(kind_code_at(&packed, x, 5), 5);
    }
}

/// Head-to-head, equal lengths: both die and the shared square is empty.
#[test]
fn test_head_to_head_equal() {
    let g = game(
        11,
        11,
        vec![
            snake("a", &[(4, 5), (3, 5), (2, 5), (1, 5), (0, 5)], 80),
            snake("b", &[(6, 5), (7, 5), (8, 5), (9, 5), (10, 5)], 80),
        ],
        &[],
        &[],
        "standard",
        None,
    );
    let board = standard_board(&g);
    let moves = vec![
        (SnakeId(0), vec![Move::Right]),
        (SnakeId(1), vec![Move::Left]),
    ];
    let results = board.simulate_with_moves(&Instruments, &moves);
    assert_eq!(results.len(), 1);
    let after = &results[0].1;
    assert_eq!(after.get_health(&SnakeId(0)), 0);
    assert_eq!(after.get_health(&SnakeId(1)), 0);
    let packed = after.pack_as_hash();
    assert_eq!(kind_code_at(&packed, 5, 5), 5);
    assert!(after.assert_consistency());
}

/// Wrap: on a wrapped board, moving left from the leftmost column arrives
/// at the rightmost one, each step costs one health, and twenty-two steps
/// along one axis return the head to its starting column.
#[test]
fn test_wrap_left() {
    let g = game(
        11,
        11,
        vec![snake("a", &[(0, 5), (1, 5), (2, 5)], 100)],
        &[],
        &[],
        "wrapped",
        None,
    );
    let mut board = wrapped_board(&g);
    let results = board.simulate_with_moves(&Instruments, &vec![(SnakeId(0), vec![Move::Left])]);
    assert_eq!(results.len(), 1);
    assert_eq!(
        results[0].1.get_head_as_position(&SnakeId(0)),
        Position::new(10, 5)
    );
    assert_eq!(results[0].1.get_health(&SnakeId(0)), 99);

    for _ in 0..22 {
        let step = board.simulate_with_moves(&Instruments, &vec![(SnakeId(0), vec![Move::Left])]);
        assert_eq!(step.len(), 1);
        board = step[0].1.clone();
        assert!(board.assert_consistency());
    }
    assert_eq!(board.get_head_as_position(&SnakeId(0)).x, 0);
    assert_eq!(board.get_health(&SnakeId(0)), 78);
}

/// Tail chase: moving onto another agent's unstacked tail is legal, since
/// the tail vacates on the same tick.
#[test]
fn test_tail_chase() {
    let g = game(
        11,
        11,
        vec![
            snake("a", &[(6, 5), (7, 5), (8, 5)], 70),
            snake("b", &[(5, 7), (5, 6), (5, 5)], 70),
        ],
        &[],
        &[],
        "standard",
        None,
    );
    let board = standard_board(&g);
    // agent b's tail sits at (5, 5); agent a moves into it... but a moves
    // Left from (6,5) to (5,5) while b moves Up and its tail vacates
    let moves = vec![(SnakeId(0), vec![Move::Left]), (SnakeId(1), vec![Move::Up])];
    let results = board.simulate_with_moves(&Instruments, &moves);
    assert_eq!(results.len(), 1);
    let after = &results[0].1;
    assert!(after.get_health(&SnakeId(0)) > 0);
    assert!(after.get_health(&SnakeId(1)) > 0);
    assert_eq!(after.get_head_as_position(&SnakeId(0)), Position::new(5, 5));
    assert!(after.assert_consistency());
}

/// Neck: an agent moving into its own neck dies, whatever the geometry.
#[test]
fn test_neck_move_dies() {
    let g = game(
        11,
        11,
        vec![snake("a", &[(5, 5), (5, 4), (5, 3)], 100)],
        &[],
        &[],
        "standard",
        None,
    );
    let board = standard_board(&g);
    let results = board.simulate_with_moves(&Instruments, &vec![(SnakeId(0), vec![Move::Down])]);
    assert_eq!(results.len(), 1);
    assert_eq!(results[0].1.get_health(&SnakeId(0)), 0);
    assert!(results[0].1.assert_consistency());
}

/// Hazard: entering a hazard square with damage fifteen costs sixteen
/// health in one step, and health saturates at zero.
#[test]
fn test_hazard_damage() {
    let g = game(
        11,
        11,
        vec![snake("a", &[(5, 5), (5, 4), (5, 3)], 50)],
        &[],
        &[(5, 6)],
        "standard",
        Some(15),
    );
    let board = standard_board(&g);
    let results = board.simulate_with_moves(&Instruments, &vec![(SnakeId(0), vec![Move::Up])]);
    assert_eq!(results.len(), 1);
    assert_eq!(results[0].1.get_health(&SnakeId(0)), 34);

    let weak = game(
        11,
        11,
        vec![snake("a", &[(5, 5), (5, 4), (5, 3)], 10)],
        &[],
        &[(5, 6)],
        "standard",
        Some(15),
    );
    let board = standard_board(&weak);
    let results = board.simulate_with_moves(&Instruments, &vec![(SnakeId(0), vec![Move::Up])]);
    assert_eq!(results.len(), 1);
    assert_eq!(results[0].1.get_health(&SnakeId(0)), 0);
}

/// The packed fixture form round trips: unpacking a pack gives the board
/// back, and repacking gives the pack back.
#[test]
fn test_pack_round_trips() {
    let g = game(
        11,
        11,
        vec![
            snake("a", &[(5, 5), (5, 4), (5, 3)], 90),
            snake("b", &[(0, 0), (1, 0)], 55),
        ],
        &[(2, 2)],
        &[(3, 3)],
        "standard",
        Some(14),
    );
    let board = standard_board(&g);
    let packed = board.pack_as_hash();
    let unpacked = standard::CellBoard::from_packed_hash(&packed);
    assert_eq!(unpacked, board);
    assert_eq!(unpacked.pack_as_hash(), packed);
}

/// You are always agent zero.
#[test]
fn test_is_you() {
    let g = game(
        11,
        11,
        vec![snake("a", &[(5, 5), (5, 4)], 90)],
        &[],
        &[],
        "standard",
        None,
    );
    let board = standard_board(&g);
    assert!(board.is_you(&SnakeId(0)));
    assert!(!board.is_you(&SnakeId(1)));
    assert_eq!(board.you_id(), SnakeId(0));
}

/// Conversion errors: a grid beyond the cell capacity or an agent count
/// beyond the agent capacity is a size mismatch; a body stacking three
/// segments beside other squares is malformed; a rule set of the other
/// geometry is the wrong mode.
#[test]
fn test_convert_errors() {
    let g = game(
        11,
        11,
        vec![snake("a", &[(5, 5), (5, 4)], 90)],
        &[],
        &[],
        "standard",
        None,
    );
    let map = build_snake_id_map(&g);
    assert_eq!(
        standard::CellBoard::convert_from_game(&g, &map, 49, 4).unwrap_err(),
        ConvertError::SizeMismatch
    );
    assert_eq!(
        wrapped::CellBoard::convert_from_game(&g, &map, 121, 4).unwrap_err(),
        ConvertError::WrongMode
    );

    let two = game(
        11,
        11,
        vec![
            snake("a", &[(5, 5), (5, 4)], 90),
            snake("b", &[(0, 0), (1, 0)], 90),
        ],
        &[],
        &[],
        "standard",
        None,
    );
    let map2 = build_snake_id_map(&two);
    assert_eq!(
        standard::CellBoard::convert_from_game(&two, &map2, 121, 1).unwrap_err(),
        ConvertError::SizeMismatch
    );

    let malformed = game(
        11,
        11,
        vec![snake("a", &[(5, 5), (5, 4), (5, 4), (5, 4)], 90)],
        &[],
        &[],
        "standard",
        None,
    );
    let map3 = build_snake_id_map(&malformed);
    assert_eq!(
        standard::CellBoard::convert_from_game(&malformed, &map3, 121, 4).unwrap_err(),
        ConvertError::MalformedBody
    );

    let wrapped_game = game(
        11,
        11,
        vec![snake("a", &[(5, 5), (5, 4)], 90)],
        &[],
        &[],
        "wrapped",
        None,
    );
    let map4 = build_snake_id_map(&wrapped_game);
    assert_eq!(
        standard::CellBoard::convert_from_game(&wrapped_game, &map4, 121, 4).unwrap_err(),
        ConvertError::WrongMode
    );
}

/// The id map gives you id zero and the others the following ids in board
/// order.
#[test]
fn test_snake_id_map() {
    let g = game(
        11,
        11,
        vec![
            snake("you", &[(5, 5), (5, 4)], 90),
            snake("other", &[(0, 0), (1, 0)], 90),
        ],
        &[],
        &[],
        "standard",
        None,
    );
    let map = build_snake_id_map(&g);
    assert_eq!(map.get(&"you".to_string()), Some(SnakeId(0)));
    assert_eq!(map.get(&"other".to_string()), Some(SnakeId(1)));
    assert_eq!(map.get(&"missing".to_string()), None);
}

/// Placing food on a board without any puts one food on an empty square;
/// this would fail if the random index draw ignored its bound.
#[test]
fn test_place_food_adds_one() {
    let g = game(
        11,
        11,
        vec![snake("a", &[(5, 5), (5, 4)], 90)],
        &[],
        &[],
        "standard",
        None,
    );
    let mut board = standard_board(&g);
    assert_eq!(board.get_all_food_as_native_positions().len(), 0);
    board.place_food();
    assert_eq!(board.get_all_food_as_native_positions().len(), 1);
}

/// The simulator reports each call to the instruments exactly once, and
/// the body-collision rule kills an agent running into another's body.
#[test]
fn test_body_collision_and_instruments() {
    let g = game(
        11,
        11,
        vec![
            snake("a", &[(4, 5), (4, 4), (4, 3)], 90),
            snake("b", &[(5, 6), (5, 5), (5, 4)], 90),
        ],
        &[],
        &[],
        "standard",
        None,
    );
    let board = standard_board(&g);
    let counting = CountingInstruments(std::cell::Cell::new(0));
    // agent a turns right into b's middle; b moves on
    let moves = vec![(SnakeId(0), vec![Move::Right]), (SnakeId(1), vec![Move::Up])];
    let results = board.simulate_with_moves(&counting, &moves);
    assert_eq!(counting.0.get(), 1);
    assert_eq!(results.len(), 1);
    assert_eq!(results[0].1.get_health(&SnakeId(0)), 0);
    assert!(results[0].1.get_health(&SnakeId(1)) > 0);
}

/// Simulating an agent with all four directions yields one successor per
/// surviving direction; the neck direction is filtered out up front.
#[test]
fn test_simulate_filters_neck() {
    let g = game(
        11,
        11,
        vec![snake("a", &[(5, 5), (5, 4), (5, 3)], 90)],
        &[],
        &[],
        "standard",
        None,
    );
    let board = standard_board(&g);
    let moves = vec![(
        SnakeId(0),
        vec![Move::Up, Move::Down, Move::Left, Move::Right],
    )];
    let results = board.simulate_with_moves(&Instruments, &moves);
    assert_eq!(results.len(), 3);
    for (_, b) in &results {
        assert!(b.assert_consistency());
    }
}

/// The wrapped reasonable-move filter allows a tail chase onto an
/// unstacked tail and refuses squares held by bodies.
#[test]
fn test_reasonable_moves_wrapped() {
    let g = game(
        11,
        11,
        vec![snake("a", &[(5, 5), (5, 6), (5, 7), (4, 7), (4, 6), (4, 5)], 90)],
        &[],
        &[],
        "wrapped",
        None,
    );
    let board = wrapped_board(&g);
    let moves = board.reasonable_moves_for_each_snake();
    assert_eq!(moves.len(), 1);
    assert_eq!(moves[0].0, SnakeId(0));
    // up is the own neck, left is the own tail (which vacates): allowed are
    // down, left, right
    assert_eq!(moves[0].1, vec![Move::Down, Move::Left, Move::Right]);
}

/// Head-to-head on a third agent's body: both colliders die, and the
/// third agent's body square is left intact so its ring stays whole.
#[test]
fn test_head_to_head_on_third_body() {
    let g = game(
        11,
        11,
        vec![
            snake("a", &[(5, 4), (5, 3), (5, 2)], 90),
            snake("b", &[(5, 6), (5, 7), (5, 8)], 90),
            snake("c", &[(6, 5), (5, 5), (4, 5)], 90),
        ],
        &[],
        &[],
        "standard",
        None,
    );
    let board = standard_board(&g);
    let moves = vec![
        (SnakeId(0), vec![Move::Up]),
        (SnakeId(1), vec![Move::Down]),
        (SnakeId(2), vec![Move::Right]),
    ];
    let results = board.simulate_with_moves(&Instruments, &moves);
    assert_eq!(results.len(), 1);
    let after = &results[0].1;
    assert_eq!(after.get_health(&SnakeId(0)), 0);
    assert_eq!(after.get_health(&SnakeId(1)), 0);
    assert!(after.get_health(&SnakeId(2)) > 0);
    assert!(after.assert_consistency());
    // the shared square still belongs to the third agent
    let packed = after.pack_as_hash();
    assert_eq!(kind_code_at(&packed, 5, 5), 1);
    assert_eq!((packed.cells[(5 * 11 + 5) as usize] >> 8) & 0xff, 2);
}

/// Placing food on a board that already has some adds at most one more.
#[test]
fn test_place_food_with_existing() {
    let g = game(
        11,
        11,
        vec![snake("a", &[(5, 5), (5, 4)], 90)],
        &[(2, 2)],
        &[],
        "standard",
        None,
    );
    let mut board = standard_board(&g);
    board.place_food();
    let n = board.get_all_food_as_native_positions().len();
    assert!(n == 1 || n == 2);
}

/// The compact sampler only hands out reasonable moves for the cornered
/// agent under bounded geometry.
#[test]
fn test_standard_random_reasonable() {
    let g = game(
        11,
        11,
        vec![snake("a", &[(0, 0), (0, 1), (0, 2)], 90)],
        &[],
        &[],
        "standard",
        None,
    );
    let board = standard_board(&g);
    for _ in 0..20 {
        let moves = board.random_reasonable_move_for_each_snake();
        assert_eq!(moves.len(), 1);
        assert_eq!(moves[0].0, SnakeId(0));
        assert_eq!(moves[0].1, Move::Right);
    }
}

/// Neighbors and possible moves from a corner under bounded geometry keep
/// only the on-board steps; under toroidal geometry all four remain.
#[test]
fn test_neighbors_and_possible_moves() {
    let g = game(
        11,
        11,
        vec![snake("a", &[(0, 10), (0, 9)], 90)],
        &[],
        &[],
        "standard",
        None,
    );
    let board = standard_board(&g);
    let head = CellIndex(10 * 11);
    let expected = vec![
        (Move::Down, CellIndex(9 * 11)),
        (Move::Right, CellIndex(10 * 11 + 1)),
    ];
    assert_eq!(board.possible_moves(&head), expected);
    assert_eq!(
        board.neighbors(&head),
        expected.iter().map(|&(_, ci)| ci).collect::<Vec<_>>()
    );

    let wg = game(
        11,
        11,
        vec![snake("a", &[(0, 10), (0, 9)], 90)],
        &[],
        &[],
        "wrapped",
        None,
    );
    let wboard = wrapped_board(&wg);
    let wrapped_expected = vec![
        (Move::Up, CellIndex(0)),
        (Move::Down, CellIndex(9 * 11)),
        (Move::Left, CellIndex(10 * 11 + 10)),
        (Move::Right, CellIndex(10 * 11 + 1)),
    ];
    assert_eq!(wboard.possible_moves(&head), wrapped_expected);
}

/// The neck query answers exactly the body square whose link points at
/// the head.
#[test]
fn test_is_neck() {
    let g = game(
        11,
        11,
        vec![snake("a", &[(5, 8), (5, 9), (5, 10)], 90)],
        &[],
        &[],
        "standard",
        None,
    );
    let board = standard_board(&g);
    assert!(board.is_neck(&SnakeId(0), &CellIndex(9 * 11 + 5)));
    assert!(!board.is_neck(&SnakeId(0), &CellIndex(10 * 11 + 5)));
    assert!(!board.is_neck(&SnakeId(0), &CellIndex(8 * 11 + 5)));
}

/// The body comes back head first with stacked squares repeated, and the
/// distinct-square walk runs tail to head.
#[test]
fn test_body_views() {
    let g = game(
        11,
        11,
        vec![snake("a", &[(5, 8), (5, 9), (5, 9)], 90)],
        &[],
        &[],
        "standard",
        None,
    );
    let board = standard_board(&g);
    assert_eq!(
        board.get_snake_body_vec(&SnakeId(0)),
        vec![CellIndex(8 * 11 + 5), CellIndex(9 * 11 + 5), CellIndex(9 * 11 + 5)]
    );
    assert_eq!(
        board.get_snake_body_iter(&SnakeId(0)),
        vec![CellIndex(9 * 11 + 5), CellIndex(8 * 11 + 5)]
    );
}

/// No one wins when you are dead while several others still stand.
#[test]
fn test_no_winner_with_you_dead_and_two_alive() {
    let g = game(
        11,
        11,
        vec![
            snake("a", &[(5, 5), (5, 4), (5, 3)], 1),
            snake("b", &[(0, 0), (1, 0), (2, 0)], 50),
            snake("c", &[(10, 10), (9, 10), (8, 10)], 50),
        ],
        &[],
        &[],
        "standard",
        None,
    );
    let board = standard_board(&g);
    let moves = vec![
        (SnakeId(0), vec![Move::Up]),
        (SnakeId(1), vec![Move::Up]),
        (SnakeId(2), vec![Move::Down]),
    ];
    let results = board.simulate_with_moves(&Instruments, &moves);
    assert_eq!(results.len(), 1);
    let after = &results[0].1;
    assert_eq!(after.get_health(&SnakeId(0)), 0);
    assert!(after.is_over());
    assert_eq!(after.get_winner(), None);
}
