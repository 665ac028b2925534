use battlesnake_game_types::types::{Move, SimulatorInstruments};
use battlesnake_game_types::wire_representation::simulator::Simulator;
use battlesnake_game_types::wire_representation::{
    BattleSnake, Board, Game, NestedGame, Position, Ruleset,
};

#[derive(Debug)]
struct Instruments;

impl SimulatorInstruments for Instruments {
    fn observe_simulation(&self, _duration_micros: u64) {}
}

fn snake(id: &str, body: &[(i32, i32)], health: i32) -> BattleSnake {
    let positions: Vec<Position> = body.iter().map(|&(x, y)| Position::new(x, y)).collect();
    BattleSnake {
        id: id.to_string(),
        name: id.to_string(),
        head: positions[0],
        body: positions,
        health,
        shout: None,
        actual_length: None,
    }
}

fn game(snakes: Vec<BattleSnake>, food: &[(i32, i32)], ruleset_name: &str) -> Game {
    Game {
        you: snakes[0].clone(),
        board: Board {
            height: 11,
            width: 11,
            food: food.iter().map(|&(x, y)| Position::new(x, y)).collect(),
            snakes,
            hazards: vec![],
        },
        turn: 3,
        game: NestedGame {
            id: "game".to_string(),
            ruleset: Ruleset {
                name: ruleset_name.to_string(),
                version: "v1".to_string(),
                settings: None,
            },
            timeout: 500,
            map: None,
            source: None,
        },
    }
}

/// A single snake away from the walls has three viable moves; the neck
/// move is not simulated.
#[test]
fn test_wire_simple_simulation() {
    let g = game(vec![snake("you", &[(5, 5), (5, 4), (5, 3)], 90)], &[], "standard");
    let sim = Simulator::new(&g);
    let res = sim.simulate(&Instruments, &vec!["you".to_string()]);
    assert_eq!(res.len(), 3);
    for (_, after) in &res {
        assert_eq!(after.turn, g.turn + 1);
    }
}

/// Two heads meeting on the wire simulator: the shorter snake is dropped
/// from the board and you lose when it was yours.
#[test]
fn test_wire_kill_logic() {
    let g = game(
        vec![
            snake("you", &[(4, 5), (3, 5), (2, 5)], 90),
            snake("other", &[(6, 5), (7, 5), (8, 5), (9, 5)], 90),
        ],
        &[],
        "standard",
    );
    let sim = Simulator::new(&g);
    let res = sim.simulate_with_moves(
        &Instruments,
        &vec![
            ("you".to_string(), vec![Move::Right]),
            ("other".to_string(), vec![Move::Left]),
        ],
    );
    assert_eq!(res.len(), 1);
    let (moves, after) = &res[0];
    assert!(moves.contains(&("you".to_string(), Move::Right)));
    assert!(moves.contains(&("other".to_string(), Move::Left)));
    assert_eq!(after.you.health, 0);
    assert!(after.board.snakes.iter().all(|s| s.id != "you"));
    assert!(after.board.snakes.iter().any(|s| s.id == "other"));
}

/// Eating on the wire simulator restores health, grows the body and
/// consumes the food.
#[test]
fn test_wire_food() {
    let g = game(
        vec![snake("you", &[(5, 5), (5, 4), (5, 3)], 40)],
        &[(5, 6)],
        "standard",
    );
    let sim = Simulator::new(&g);
    let res = sim.simulate_with_moves(
        &Instruments,
        &vec![("you".to_string(), vec![Move::Up])],
    );
    assert_eq!(res.len(), 1);
    let after = &res[0].1;
    assert_eq!(after.you.health, 100);
    assert_eq!(after.you.body.len(), 4);
    assert_eq!(after.you.head, Position::new(5, 6));
    assert!(after.board.food.is_empty());
}

/// The wire sampler only hands out moves that stay on the board and off
/// every body.
#[test]
fn test_wire_random_reasonable_moves() {
    let g = game(
        vec![snake("you", &[(0, 0), (0, 1), (0, 2)], 90)],
        &[],
        "standard",
    );
    for _ in 0..20 {
        let moves = g.random_reasonable_move_for_each_snake();
        assert_eq!(moves.len(), 1);
        assert_eq!(moves[0].0, "you");
        // cornered at the origin with the body above: only right stays free
        assert_eq!(moves[0].1, Move::Right);
    }
}

/// Under the wrapped rule set the sampler folds steps around the edges,
/// so the cornered snake may also leave the board leftwards or downwards.
#[test]
fn test_wire_random_reasonable_moves_wrapped() {
    let g = game(
        vec![snake("you", &[(0, 0), (0, 1), (0, 2)], 90)],
        &[],
        "wrapped",
    );
    for _ in 0..20 {
        let moves = g.random_reasonable_move_for_each_snake();
        assert_eq!(moves.len(), 1);
        assert!(matches!(moves[0].1, Move::Down | Move::Left | Move::Right));
    }
}

/// Snapshot queries: winner, wrap flag and off-board test.
#[test]
fn test_wire_game_queries() {
    let g = game(vec![snake("you", &[(5, 5), (5, 4)], 90)], &[], "wrapped");
    assert!(g.is_wrapped());
    assert!(g.you_are_winner());
    assert!(!g.off_board(Position::new(10, 10)));
    assert!(g.off_board(Position::new(11, 10)));
    assert!(g.off_board(Position::new(-1, 0)));
    assert_eq!(g.snake_ids(), vec!["you".to_string()]);
    assert!(!g.is_arcade_maze_map());
}
