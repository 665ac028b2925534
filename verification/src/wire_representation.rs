//! Types matching the normalized game snapshot that the engine consumes.
//! The JSON wire format itself is handled outside the engine; these records
//! hold the already-decoded values.
pub mod simulator;

use vstd::prelude::*;

use crate::compact_representation::convert::{spec_body_malformed, spec_converted_board, spec_game_convertible, ConvertError};
use crate::compact_representation::{standard, wrapped};
use crate::types::{Move, SnakeIDMap, Vector};

verus! {

/// A board coordinate; `(0, 0)` is the bottom-left square.
#[derive(Debug, Clone, Copy, PartialEq, Eq, Hash, PartialOrd, Ord, Structural)]
pub struct Position {
    /// column, growing rightwards
    pub x: i32,
    /// row, growing upwards
    pub y: i32,
}

impl Position {
    /// build a position from its coordinates
    pub fn new(x: i32, y: i32) -> (r: Position)
        ensures
            r.x == x && r.y == y,
    {
        Position { x, y }
    }

    /// the taxicab distance from the origin
    pub fn manhattan_length(&self) -> (r: u32)
        requires
            self.x != i32::MIN,
            self.y != i32::MIN,
            (if self.x >= 0 {
                self.x as int
            } else {
                -self.x as int
            }) + (if self.y >= 0 {
                self.y as int
            } else {
                -self.y as int
            }) <= i32::MAX,
        ensures
            r as int == (if self.x >= 0 {
                self.x as int
            } else {
                -self.x as int
            }) + (if self.y >= 0 {
                self.y as int
            } else {
                -self.y as int
            }),
    {
        let ax: i32 = if self.x >= 0 {
            self.x
        } else {
            -self.x
        };
        let ay: i32 = if self.y >= 0 {
            self.y
        } else {
            -self.y
        };
        (ax + ay) as u32
    }

    /// offset this position by a vector
    pub fn add_vec(&self, v: Vector) -> (r: Position)
        requires
            i32::MIN <= self.x + v.x <= i32::MAX,
            i32::MIN <= self.y + v.y <= i32::MAX,
        ensures
            r.x == self.x + v.x,
            r.y == self.y + v.y,
    {
        Position { x: (self.x as i64 + v.x) as i32, y: (self.y as i64 + v.y) as i32 }
    }

    /// offset this position backwards by a vector
    pub fn sub_vec(&self, v: Vector) -> (r: Position)
        requires
            i32::MIN <= self.x - v.x <= i32::MAX,
            i32::MIN <= self.y - v.y <= i32::MAX,
        ensures
            r.x == self.x - v.x,
            r.y == self.y - v.y,
    {
        Position { x: (self.x as i64 - v.x) as i32, y: (self.y as i64 - v.y) as i32 }
    }

    /// view this position as a vector from the origin
    pub fn to_vector(&self) -> (r: Vector)
        ensures
            r.x == self.x as i64,
            r.y == self.y as i64,
    {
        Vector { x: self.x as i64, y: self.y as i64 }
    }
}

/// One agent of the snapshot: its stable id, body head-first, and health.
#[derive(Debug, Clone, PartialEq, Eq)]
pub struct BattleSnake {
    /// stable id handed out by the host
    pub id: String,
    /// display name
    pub name: String,
    /// the square the head is on
    pub head: Position,
    /// every body square, ordered head first
    pub body: Vec<Position>,
    /// remaining health in `[0, 100]`
    pub health: i32,
    /// what the agent shouted this turn, if anything
    pub shout: Option<String>,
    /// length override carried by some hosts; unused by the engine
    pub actual_length: Option<i32>,
}

/// The grid part of the snapshot.
#[derive(Debug, Clone, PartialEq, Eq)]
pub struct Board {
    /// number of rows
    pub height: u32,
    /// number of columns
    pub width: u32,
    /// every square holding food
    pub food: Vec<Position>,
    /// every agent still on the board
    pub snakes: Vec<BattleSnake>,
    /// every square marked hazardous
    pub hazards: Vec<Position>,
}

/// Per-game metadata of the snapshot.
#[derive(Debug, Clone, PartialEq, Eq)]
pub struct NestedGame {
    /// the game id
    pub id: String,
    /// which rule set the game runs under
    pub ruleset: Ruleset,
    /// move timeout in milliseconds
    pub timeout: i64,
    /// the map name, when the host sent a non-empty one
    pub map: Option<String>,
    /// where the game came from, when the host sent a non-empty value
    pub source: Option<String>,
}

/// The rule set name, version and optional settings.
#[derive(Debug, Clone, PartialEq, Eq)]
pub struct Ruleset {
    /// rule set name; `"wrapped"` selects toroidal geometry
    pub name: String,
    /// rule set version string
    pub version: String,
    /// optional tunable settings
    pub settings: Option<Settings>,
}

/// Tunable rule settings.
#[derive(Debug, Clone, PartialEq, Eq)]
pub struct Settings {
    /// percent chance of food spawning each turn
    pub food_spawn_chance: i32,
    /// minimum food kept on the board
    pub minimum_food: i32,
    /// health lost per turn spent on a hazard square
    pub hazard_damage_per_turn: i32,
    /// hazard layout name, when the host sent a non-empty one
    pub hazard_map: Option<String>,
    /// hazard layout author, when the host sent a non-empty one
    pub hazard_map_author: Option<String>,
    /// royale-mode settings, when present
    pub royale: Option<RoyaleSettings>,
}

/// Royale-mode settings.
#[derive(Debug, Clone, Copy, PartialEq, Eq, Structural)]
pub struct RoyaleSettings {
    /// the board shrinks every this many turns
    pub shrink_every_n_turns: i32,
}

/// A whole normalized snapshot: the requesting agent, the grid, the turn
/// counter and the game metadata.
#[derive(Debug, Clone, PartialEq, Eq)]
pub struct Game {
    /// the agent this snapshot was sent to; always agent 0
    pub you: BattleSnake,
    /// the grid
    pub board: Board,
    /// turns played so far
    pub turn: i32,
    /// per-game metadata
    pub game: NestedGame,
}

impl Game {
    /// Whether a position lies outside this snapshot's grid.
    pub open spec fn spec_off_board(self, position: Position) -> bool {
        position.x < 0 || position.x >= self.board.width || position.y < 0 || position.y
            >= self.board.height
    }

    /// checks if a given position is not on the board
    pub fn off_board(&self, position: Position) -> (r: bool)
        ensures
            r == self.spec_off_board(position),
    {
        position.x < 0 || position.x as i64 >= self.board.width as i64 || position.y < 0
            || position.y as i64 >= self.board.height as i64
    }

    /// Whether you are the unique agent left standing.
    pub open spec fn spec_you_are_winner(self) -> bool {
        &&& self.you.health != 0
        &&& self.board.snakes.len() == 1
        &&& self.board.snakes[0].id@ == self.you.id@
    }

    /// whether you have won this game
    pub fn you_are_winner(&self) -> (r: bool)
        ensures
            r == self.spec_you_are_winner(),
    {
        if self.you.health == 0 {
            false
        } else {
            self.board.snakes.len() == 1 && self.board.snakes[0].id == self.you.id
        }
    }

    /// the ids of every agent on the board, in board order
    pub fn snake_ids(&self) -> (r: Vec<String>)
        ensures
            r@.len() == self.board.snakes@.len(),
            forall|i: int|
                0 <= i < r@.len() ==> #[trigger] r@[i] == self.board.snakes@[i].id,
    {
        let mut out: Vec<String> = Vec::new();
        let mut i: usize = 0;
        while i < self.board.snakes.len()
            invariant
                i <= self.board.snakes@.len(),
                out@.len() == i,
                forall|k: int| 0 <= k < i ==> #[trigger] out@[k] == self.board.snakes@[k].id,
            decreases self.board.snakes@.len() - i,
        {
            out.push(self.board.snakes[i].id.clone());
            i = i + 1;
        }
        out
    }

    /// Whether the rule set name selects wrapped (toroidal) geometry.
    pub open spec fn spec_is_wrapped(self) -> bool {
        self.game.ruleset.name@ == "wrapped"@
    }

    /// whether this game uses the wrapped rule set
    pub fn is_wrapped(&self) -> (r: bool)
        ensures
            r == self.spec_is_wrapped(),
    {
        let wrapped: String = "wrapped".to_owned();
        self.game.ruleset.name == wrapped
    }

    /// whether this game is played on the arcade maze map
    pub fn is_arcade_maze_map(&self) -> (r: bool)
        ensures
            r == match self.game.map {
                Some(m) => m@ == "arcade_maze"@,
                None => false,
            },
    {
        match &self.game.map {
            Some(m) => {
                let arcade: String = "arcade_maze".to_owned();
                *m == arcade
            },
            None => false,
        }
    }

    /// The hazard damage this game runs with: the configured value, or 15
    /// when no settings came with the snapshot, truncated to a byte as the
    /// engine stores it.
    pub open spec fn spec_hazard_damage(self) -> u8 {
        match self.game.ruleset.settings {
            Some(s) => s.hazard_damage_per_turn as u8,
            None => 15u8,
        }
    }

    /// how much health a hazard square costs per turn in this game
    pub fn get_hazard_damage(&self) -> (r: u8)
        ensures
            r == self.spec_hazard_damage(),
    {
        match &self.game.ruleset.settings {
            Some(s) => #[verifier::truncate] (s.hazard_damage_per_turn as u8),
            None => 15,
        }
    }
}


impl Game {
    /// builds a bounded-geometry compact board from this snapshot
    pub fn as_cell_board(
        &self,
        snake_ids: &SnakeIDMap,
        board_size: usize,
        max_snakes: usize,
    ) -> (r: Result<standard::CellBoard, ConvertError>)
        requires
            snake_ids.wf(),
            spec_game_convertible(*self, snake_ids.spec_ids(), max_snakes as int),
            board_size <= u16::MAX + 1,
            1 <= max_snakes <= 256,
        ensures
            r == Err::<standard::CellBoard, ConvertError>(ConvertError::WrongMode)
                <==> self.spec_is_wrapped(),
            !self.spec_is_wrapped() && !(self.board.width * self.board.height > board_size
                || self.board.snakes@.len() > max_snakes) && !(exists|s: int|
                0 <= s < self.board.snakes@.len() && spec_body_malformed(
                    (#[trigger] self.board.snakes@[s]).body@,
                )) ==> (r matches Ok(b) && b@
                == spec_converted_board(
                *self,
                snake_ids.spec_ids(),
                board_size as int,
                max_snakes as int,
            )),
    {
        standard::CellBoard::convert_from_game(self, snake_ids, board_size, max_snakes)
    }

    /// builds a toroidal compact board from this snapshot, which must run
    /// under the wrapped rule set
    pub fn as_wrapped_cell_board(
        &self,
        snake_ids: &SnakeIDMap,
        board_size: usize,
        max_snakes: usize,
    ) -> (r: Result<wrapped::CellBoard, ConvertError>)
        requires
            self.spec_is_wrapped(),
            snake_ids.wf(),
            spec_game_convertible(*self, snake_ids.spec_ids(), max_snakes as int),
            board_size <= u16::MAX + 1,
            1 <= max_snakes <= 256,
        ensures
            !(self.board.width * self.board.height > board_size || self.board.snakes@.len()
                > max_snakes) && !(exists|s: int|
                0 <= s < self.board.snakes@.len() && spec_body_malformed(
                    (#[trigger] self.board.snakes@[s]).body@,
                )) ==> (r matches Ok(b) && b@ == spec_converted_board(
                *self,
                snake_ids.spec_ids(),
                board_size as int,
                max_snakes as int,
            )),
    {
        wrapped::CellBoard::convert_from_game(self, snake_ids, board_size, max_snakes)
    }
}


/// The Euclidean remainder of `a` modulo `m`.
pub fn rem_euclid_i32(a: i32, m: i32) -> (r: i32)
    requires
        0 < m,
        -2000000 <= a <= 2000000,
        m <= 2000000,
    ensures
        r == a as int % m as int,
{
    let big: i64 = a as i64 + 2000000i64 * m as i64;
    proof {
        vstd::arithmetic::div_mod::lemma_mod_multiples_vanish(2000000int, a as int, m as int);
        vstd::arithmetic::div_mod::lemma_mod_bound(big as int, m as int);
    }
    let r64: i64 = big % m as i64;
    r64 as i32
}

/// Two different directions never step onto the same square.
proof fn lemma_step_injective(head: Position, m1: Move, m2: Move)
    requires
        -1000000 <= head.x <= 1000000,
        -1000000 <= head.y <= 1000000,
        ({
            let v1 = m1.spec_to_vector();
            let v2 = m2.spec_to_vector();
            (Position { x: (head.x + v1.x) as i32, y: (head.y + v1.y) as i32 }) == (Position {
                x: (head.x + v2.x) as i32,
                y: (head.y + v2.y) as i32,
            })
        }),
    ensures
        m1 == m2,
{
    let v1 = m1.spec_to_vector();
    let v2 = m2.spec_to_vector();
    assert(v1 == v2);
    match m1 {
        Move::Up => {
            match m2 {
                Move::Up => {},
                Move::Down => {},
                Move::Left => {},
                Move::Right => {},
            }
        },
        Move::Down => {},
        Move::Left => {},
        Move::Right => {},
    }
}

impl Game {
    /// Whether one direction is a reasonable sample for a snake of this
    /// snapshot: the step (wrapped under the wrapped rule set) stays on the
    /// board, lands on no snake's body, and does not walk into a hazard
    /// the snake cannot survive.
    pub open spec fn spec_wire_reasonable(self, s: BattleSnake, m: Move) -> bool {
        let v = m.spec_to_vector();
        let stepped = Position { x: (s.head.x + v.x) as i32, y: (s.head.y + v.y) as i32 };
        let nh = if self.spec_is_wrapped() {
            Position {
                x: (stepped.x as int % self.board.width as int) as i32,
                y: (stepped.y as int % self.board.height as int) as i32,
            }
        } else {
            stepped
        };
        let on_body = exists|w: int, p: int|
            0 <= w < self.board.snakes@.len() && 0 <= p < self.board.snakes@[w].body@.len() && (
            #[trigger] self.board.snakes@[w].body@[p]) == nh;
        !(self.spec_off_board(nh) || on_body || (self.board.hazards@.contains(nh)
            && self.spec_hazard_damage() >= s.health))
    }

    /// Whether one direction steps straight into a snake's neck.
    pub open spec fn spec_wire_into_neck(self, s: BattleSnake, m: Move) -> bool {
        let v = m.spec_to_vector();
        s.body@[1] == (Position { x: (s.head.x + v.x) as i32, y: (s.head.y + v.y) as i32 })
    }

    /// one uniformly sampled reasonable move per snake of the snapshot; a
    /// snake with no reasonable move samples any move that avoids its own
    /// neck instead. The draws are random, so only membership is promised.
    #[verifier::loop_isolation(false)]
    pub fn random_reasonable_move_for_each_snake(&self) -> (r: Vec<(String, Move)>)
        requires
            1 <= self.board.width <= 1000,
            1 <= self.board.height <= 1000,
            forall|w: int|
                0 <= w < self.board.snakes@.len() ==> {
                    let s = #[trigger] self.board.snakes@[w];
                    &&& s.body@.len() >= 2
                    &&& -1000000 <= s.head.x <= 1000000
                    &&& -1000000 <= s.head.y <= 1000000
                },
        ensures
            r@.len() == self.board.snakes@.len(),
            forall|k: int|
                0 <= k < r@.len() ==> {
                    let s = self.board.snakes@[k];
                    &&& (#[trigger] r@[k]).0@ == s.id@
                    &&& (self.spec_wire_reasonable(s, r@[k].1) || ((forall|m: Move|
                        !self.spec_wire_reasonable(s, m)) && !self.spec_wire_into_neck(
                        s,
                        r@[k].1,
                    )))
                },
    {
        let mut out: Vec<(String, Move)> = Vec::new();
        let mut k: usize = 0;
        while k < self.board.snakes.len()
            invariant
                k <= self.board.snakes@.len(),
                out@.len() == k,
                forall|kk: int|
                    0 <= kk < k ==> {
                        let s = self.board.snakes@[kk];
                        &&& (#[trigger] out@[kk]).0@ == s.id@
                        &&& (self.spec_wire_reasonable(s, out@[kk].1) || ((forall|m: Move|
                            !self.spec_wire_reasonable(s, m)) && !self.spec_wire_into_neck(
                            s,
                            out@[kk].1,
                        )))
                    },
            decreases self.board.snakes@.len() - k,
        {
            let s = &self.board.snakes[k];
            let mut kept: Vec<Move> = Vec::new();
            let mut mi: usize = 0;
            while mi < 4
                invariant
                    mi <= 4,
                    k < self.board.snakes@.len(),
                    s == &self.board.snakes@[k as int],
                    forall|w: int|
                        0 <= w < kept@.len() ==> self.spec_wire_reasonable(
                            *s,
                            #[trigger] kept@[w],
                        ),
                    forall|q: int|
                        0 <= q < mi ==> (self.spec_wire_reasonable(
                            *s,
                            #[trigger] Move::spec_from_index(q as usize),
                        ) ==> kept@.contains(Move::spec_from_index(q as usize))),
                decreases 4 - mi,
            {
                let m = Move::from_index(mi);
                let ghost kept0 = kept@;
                if self.wire_reasonable(s, m) {
                    kept.push(m);
                }
                proof {
                    assert forall|q: int|
                        0 <= q < mi + 1 implies (self.spec_wire_reasonable(
                        *s,
                        #[trigger] Move::spec_from_index(q as usize),
                    ) ==> kept@.contains(Move::spec_from_index(q as usize))) by {
                        if self.spec_wire_reasonable(*s, Move::spec_from_index(q as usize)) {
                            if q < mi {
                                let w = choose|w: int|
                                    0 <= w < kept0.len() && kept0[w] == Move::spec_from_index(
                                        q as usize,
                                    );
                                assert(kept@[w] == Move::spec_from_index(q as usize));
                            } else {
                                assert(kept@.last() == m);
                            }
                        }
                    }
                }
                mi = mi + 1;
            }
            if kept.len() > 0 {
                let pick = crate::random_source::random_index_below(kept.len());
                let m = kept[pick];
                proof {
                    assert(self.spec_wire_reasonable(*s, m));
                }
                out.push((s.id.clone(), m));
            } else {
                let mut fallback: Vec<Move> = Vec::new();
                let ghost mut neck_q: Option<int> = None;
                let mut mi: usize = 0;
                while mi < 4
                    invariant
                        mi <= 4,
                        k < self.board.snakes@.len(),
                        s == &self.board.snakes@[k as int],
                        forall|w: int|
                            0 <= w < fallback@.len() ==> !self.spec_wire_into_neck(
                                *s,
                                #[trigger] fallback@[w],
                            ),
                        neck_q is None ==> fallback@.len() == mi,
                        neck_q matches Some(q) ==> 0 <= q < mi && self.spec_wire_into_neck(
                            *s,
                            Move::spec_from_index(q as usize),
                        ) && fallback@.len() + 1 == mi,
                    decreases 4 - mi,
                {
                    let m = Move::from_index(mi);
                    let v = m.to_vector();
                    let stepped = s.head.add_vec(v);
                    if !(stepped == s.body[1]) {
                        fallback.push(m);
                        proof {
                            assert(!self.spec_wire_into_neck(*s, m));
                        }
                    } else {
                        proof {
                            assert(self.spec_wire_into_neck(*s, m));
                            match neck_q {
                                Some(q) => {
                                    let nm = Move::spec_from_index(q as usize);
                                    lemma_step_injective(s.head, nm, m);
                                    assert(nm == Move::spec_from_index(mi));
                                    assert(false);
                                },
                                None => {
                                },
                            }
                            neck_q = Some(mi as int);
                        }
                    }
                    mi = mi + 1;
                }
                proof {
                    assert(fallback@.len() >= 3);
                }
                let pick = crate::random_source::random_index_below(fallback.len());
                let m = fallback[pick];
                proof {
                    assert(!self.spec_wire_into_neck(*s, m));
                    assert forall|m2: Move| !self.spec_wire_reasonable(
                        self.board.snakes@[k as int],
                        m2,
                    ) by {
                        let q2: int = m2.spec_index() as int;
                        assert(Move::spec_from_index(q2 as usize) == m2) by {
                            match m2 {
                                Move::Up => {},
                                Move::Down => {},
                                Move::Left => {},
                                Move::Right => {},
                            }
                        }
                        assert(self.spec_wire_reasonable(
                            *s,
                            Move::spec_from_index(q2 as usize),
                        ) ==> kept@.contains(Move::spec_from_index(q2 as usize)));
                    }
                }
                out.push((s.id.clone(), m));
            }
            k = k + 1;
        }
        out
    }

    /// Whether one direction is a reasonable sample for a snake.
    fn wire_reasonable(&self, s: &BattleSnake, m: Move) -> (r: bool)
        requires
            1 <= self.board.width <= 1000,
            1 <= self.board.height <= 1000,
            -1000000 <= s.head.x <= 1000000,
            -1000000 <= s.head.y <= 1000000,
        ensures
            r == self.spec_wire_reasonable(*s, m),
    {
        let v = m.to_vector();
        let stepped = s.head.add_vec(v);
        let nh = if self.is_wrapped() {
            Position {
                x: rem_euclid_i32(stepped.x, self.board.width as i32),
                y: rem_euclid_i32(stepped.y, self.board.height as i32),
            }
        } else {
            stepped
        };
        let mut on_body = false;
        let mut w: usize = 0;
        while w < self.board.snakes.len()
            invariant
                w <= self.board.snakes@.len(),
                on_body == exists|ww: int, p: int|
                    0 <= ww < w && 0 <= p < self.board.snakes@[ww].body@.len() && (
                    #[trigger] self.board.snakes@[ww].body@[p]) == nh,
            decreases self.board.snakes@.len() - w,
        {
            let body = &self.board.snakes[w].body;
            let mut p: usize = 0;
            let mut hit = false;
            while p < body.len()
                invariant
                    p <= body@.len(),
                    w < self.board.snakes@.len(),
                    body == &self.board.snakes@[w as int].body,
                    hit == exists|pp: int| 0 <= pp < p && (#[trigger] body@[pp]) == nh,
                decreases body@.len() - p,
            {
                if body[p] == nh {
                    proof {
                        assert(body@[p as int] == nh);
                    }
                    hit = true;
                }
                p = p + 1;
            }
            proof {
                if hit {
                    let pp = choose|pp: int| 0 <= pp < body@.len() && (#[trigger] body@[pp]) == nh;
                    assert(0 <= (w as int) < w + 1 && 0 <= pp < self.board.snakes@[
                    w as int].body@.len() && self.board.snakes@[w as int].body@[pp] == nh);
                } else {
                    assert forall|ww: int, p2: int|
                        !(0 <= ww < w + 1 && 0 <= p2 < self.board.snakes@[ww].body@.len() && (
                        #[trigger] self.board.snakes@[ww].body@[p2]) == nh) || (0 <= ww < w && 0
                            <= p2 < self.board.snakes@[ww].body@.len()
                            && self.board.snakes@[ww].body@[p2] == nh) by {
                        if 0 <= ww < w + 1 && 0 <= p2 < self.board.snakes@[ww].body@.len()
                            && self.board.snakes@[ww].body@[p2] == nh {
                            if ww == w {
                                assert(false);
                            }
                        }
                    }
                }
            }
            if hit {
                on_body = true;
            }
            w = w + 1;
        }
        let mut on_hazard = false;
        let mut w: usize = 0;
        while w < self.board.hazards.len()
            invariant
                w <= self.board.hazards@.len(),
                on_hazard == self.board.hazards@.take(w as int).contains(nh),
            decreases self.board.hazards@.len() - w,
        {
            if self.board.hazards[w] == nh {
                proof {
                    assert(self.board.hazards@.take(w + 1)[w as int] == nh);
                }
                on_hazard = true;
            }
            proof {
                if !on_hazard {
                    assert forall|q: int| 0 <= q < w + 1 implies #[trigger] self.board.hazards@.take(
                        w + 1,
                    )[q] != nh by {
                        if q < w {
                            assert(self.board.hazards@.take(w as int)[q] == self.board.hazards@.take(
                                w + 1,
                            )[q]);
                        }
                    }
                }
            }
            w = w + 1;
        }
        proof {
            assert(self.board.hazards@.take(self.board.hazards@.len() as int)
                =~= self.board.hazards@);
        }
        let hazard_damage = self.get_hazard_damage() as i32;
        let unreasonable = self.off_board(nh) || on_body || (on_hazard && hazard_damage >= s.health);
        !unreasonable
    }
}

} // verus!
