//! Core identifier and move types shared by every board representation.
use vstd::prelude::*;

use crate::wire_representation::Game;

verus! {

/// A vector with which to do positional math.
#[derive(Debug, Clone, Copy, PartialEq, Eq, Structural)]
pub struct Vector {
    /// x offset
    pub x: i64,
    /// y offset
    pub y: i64,
}

/// There are four moves.
pub const N_MOVES: usize = 4;

/// One of the four directions an agent can move in.
#[derive(Debug, Clone, Copy, PartialEq, Eq, Hash, Structural)]
pub enum Move {
    /// decrease x by one
    Left,
    /// decrease y by one
    Down,
    /// increase y by one
    Up,
    /// increase x by one
    Right,
}

impl Move {
    /// The unit vector this move offsets a position by.
    pub open spec fn spec_to_vector(self) -> Vector {
        match self {
            Move::Left => Vector { x: -1i64, y: 0i64 },
            Move::Right => Vector { x: 1i64, y: 0i64 },
            Move::Up => Vector { x: 0i64, y: 1i64 },
            Move::Down => Vector { x: 0i64, y: -1i64 },
        }
    }

    /// convert this move to a vector
    pub fn to_vector(self) -> (r: Vector)
        ensures
            r == self.spec_to_vector(),
    {
        match self {
            Move::Left => Vector { x: -1, y: 0 },
            Move::Right => Vector { x: 1, y: 0 },
            Move::Up => Vector { x: 0, y: 1 },
            Move::Down => Vector { x: 0, y: -1 },
        }
    }

    /// create a Move from the given unit vector
    pub fn from_vector(vector: Vector) -> (r: Move)
        requires
            vector == Move::Left.spec_to_vector() || vector == Move::Right.spec_to_vector()
                || vector == Move::Up.spec_to_vector() || vector == Move::Down.spec_to_vector(),
        ensures
            r.spec_to_vector() == vector,
    {
        if vector.x == -1 && vector.y == 0 {
            Move::Left
        } else if vector.x == 1 && vector.y == 0 {
            Move::Right
        } else if vector.x == 0 && vector.y == 1 {
            Move::Up
        } else {
            Move::Down
        }
    }

    /// returns an array of all possible moves, in index order
    pub fn all() -> (r: [Move; 4])
        ensures
            r@ == seq![Move::Up, Move::Down, Move::Left, Move::Right],
    {
        let r = [Move::Up, Move::Down, Move::Left, Move::Right];
        proof {
            assert(r@ =~= seq![Move::Up, Move::Down, Move::Left, Move::Right]);
        }
        r
    }

    /// returns an iterator-like cursor over all possible moves, in the same
    /// order as `Move::all()`
    pub fn all_iter() -> (r: MoveIter)
        ensures
            r.0 == 0usize,
    {
        MoveIter(0)
    }

    /// The index of this move; order matches `Move::all()`.
    pub open spec fn spec_index(self) -> usize {
        match self {
            Move::Up => 0usize,
            Move::Down => 1usize,
            Move::Left => 2usize,
            Move::Right => 3usize,
        }
    }

    /// converts this move to a usize index. indices are in the same order as `Move::all()`
    pub fn as_index(&self) -> (r: usize)
        ensures
            r == self.spec_index(),
            r < 4,
    {
        match self {
            Move::Up => 0,
            Move::Down => 1,
            Move::Left => 2,
            Move::Right => 3,
        }
    }

    /// The move with the given index, inverse of `spec_index`.
    pub open spec fn spec_from_index(index: usize) -> Move {
        if index == 0 {
            Move::Up
        } else if index == 1 {
            Move::Down
        } else if index == 2 {
            Move::Left
        } else {
            Move::Right
        }
    }

    /// converts a usize index to a move
    pub fn from_index(index: usize) -> (r: Move)
        requires
            index < 4,
        ensures
            r == Move::spec_from_index(index),
            r.spec_index() == index,
    {
        if index == 0 {
            Move::Up
        } else if index == 1 {
            Move::Down
        } else if index == 2 {
            Move::Left
        } else {
            Move::Right
        }
    }

    /// checks that a given move is not opposite to this one, e.g. Up is not
    /// opposite to Left, but is opposite to Down
    pub fn is_not_opposite(&self, other: &Move) -> (r: bool)
        ensures
            r == !((self, other) == (&Move::Up, &Move::Down) || (self, other) == (
                &Move::Down,
                &Move::Up,
            ) || (self, other) == (&Move::Left, &Move::Right) || (self, other) == (
                &Move::Right,
                &Move::Left,
            )),
    {
        !(matches!((self, other), (Move::Up, Move::Down))
            || matches!((self, other), (Move::Down, Move::Up))
            || matches!((self, other), (Move::Left, Move::Right))
            || matches!((self, other), (Move::Right, Move::Left)))
    }
}

/// Cursor over all moves, returned by `Move::all_iter()`.
///
/// Yields elements in the same order as `Move::all()`.
#[derive(Debug, Clone, Copy, PartialEq, Eq, Structural)]
pub struct MoveIter(pub usize);

impl MoveIter {
    /// The next move in index order, or None once all four have been yielded.
    pub fn next(&mut self) -> (r: Option<Move>)
        ensures
            old(self).0 < 4 ==> r == Some(Move::spec_from_index(old(self).0)) && final(self).0
                == old(self).0 + 1,
            old(self).0 >= 4 ==> r is None && final(self).0 == old(self).0,
    {
        if self.0 < N_MOVES {
            let m = Move::from_index(self.0);
            self.0 = self.0 + 1;
            Some(m)
        } else {
            None
        }
    }
}

/// token to represent a snake id
#[derive(Debug, Clone, Copy, PartialEq, Eq, Hash, Structural)]
pub struct SnakeId(pub u8);

impl SnakeId {
    /// convert this snake ID to a usize
    pub fn as_usize(&self) -> (r: usize)
        ensures
            r == self.0 as usize,
    {
        self.0 as usize
    }
}

/// Instruments to be used with simulation: a telemetry capability the host
/// implements; the simulator reports how long each call took.
pub trait SimulatorInstruments {
    /// called once per simulation call with the elapsed wall time in microseconds
    fn observe_simulation(&self, duration_micros: u64);
}

/// Represents the moves taken by every agent for a given successor:
/// slot `i` holds the direction agent `i` chose, or None for an agent
/// that was not simulated.
#[derive(Debug, PartialEq, Eq)]
pub struct Action {
    /// slot `i` holds agent `i`'s chosen direction
    pub moves: Vec<Option<Move>>,
}

impl Clone for Action {
    /// An action copies as plain data: the copy holds the same slots.
    fn clone(&self) -> (r: Action)
        ensures
            r.spec_moves() == self.spec_moves(),
    {
        let r = Action { moves: self.moves.clone() };
        proof {
            assert(r.moves@ =~= self.moves@);
        }
        r
    }
}

impl Action {
    /// What each slot of this action holds.
    pub open spec fn spec_moves(self) -> Seq<Option<Move>> {
        self.moves@
    }

    /// create a new action from a given vector of per-agent moves
    pub fn new(moves: Vec<Option<Move>>) -> (r: Action)
        ensures
            r.spec_moves() == moves@,
    {
        Action { moves }
    }

    /// The slots of `collect_from`: each pair writes its move at its id.
    pub open spec fn spec_collect(ids_and_moves: Seq<(SnakeId, Move)>, n_snakes: usize) -> Seq<
        Option<Move>,
    > {
        Seq::new(
            n_snakes as nat,
            |i: int|
                if exists|j: int|
                    0 <= j < ids_and_moves.len() && ids_and_moves[j].0.0 as int == i {
                    Some(
                        ids_and_moves[choose|j: int|
                            0 <= j < ids_and_moves.len() && ids_and_moves[j].0.0 as int == i].1,
                    )
                } else {
                    None
                },
        )
    }

    /// collects an action from a list of per-agent moves; ids must be distinct
    /// and within the agent capacity
    pub fn collect_from(ids_and_moves: &Vec<(SnakeId, Move)>, n_snakes: usize) -> (r: Action)
        requires
            forall|j: int|
                0 <= j < ids_and_moves@.len() ==> ((#[trigger] ids_and_moves@[j]).0.0 as int)
                    < n_snakes,
            forall|j1: int, j2: int|
                0 <= j1 < j2 < ids_and_moves@.len() ==> (#[trigger] ids_and_moves@[j1]).0
                    != (#[trigger] ids_and_moves@[j2]).0,
        ensures
            r.spec_moves() == Action::spec_collect(ids_and_moves@, n_snakes),
    {
        let mut moves: Vec<Option<Move>> = Vec::new();
        let mut i: usize = 0;
        while i < n_snakes
            invariant
                i <= n_snakes,
                moves@.len() == i,
                forall|k: int| 0 <= k < i ==> moves@[k] is None,
            decreases n_snakes - i,
        {
            moves.push(None);
            i = i + 1;
        }
        let mut j: usize = 0;
        while j < ids_and_moves.len()
            invariant
                j <= ids_and_moves@.len(),
                moves@.len() == n_snakes,
                forall|jj: int|
                    0 <= jj < ids_and_moves@.len() ==> ((#[trigger] ids_and_moves@[jj]).0.0 as int)
                        < n_snakes,
                forall|j1: int, j2: int|
                    0 <= j1 < j2 < ids_and_moves@.len() ==> (#[trigger] ids_and_moves@[j1]).0 != (
                    #[trigger] ids_and_moves@[j2]).0,
                forall|i: int|
                    0 <= i < n_snakes ==> #[trigger] moves@[i] == (if exists|jj: int|
                        0 <= jj < j && (#[trigger] ids_and_moves@[jj]).0.0 as int == i {
                        Some(
                            ids_and_moves@[choose|jj: int|
                                0 <= jj < j && (#[trigger] ids_and_moves@[jj]).0.0 as int == i].1,
                        )
                    } else {
                        None
                    }),
            decreases ids_and_moves@.len() - j,
        {
            let (id, mv) = ids_and_moves[j];
            moves[id.0 as usize] = Some(mv);
            proof {
                assert forall|i: int| 0 <= i < n_snakes implies #[trigger] moves@[i] == (
                if exists|jj: int|
                    0 <= jj < j + 1 && (#[trigger] ids_and_moves@[jj]).0.0 as int == i {
                    Some(
                        ids_and_moves@[choose|jj: int|
                            0 <= jj < j + 1 && (#[trigger] ids_and_moves@[jj]).0.0 as int == i].1,
                    )
                } else {
                    None
                }) by {
                    if i == id.0 as int {
                        assert(ids_and_moves@[j as int].0.0 as int == i);
                        let w = choose|jj: int|
                            0 <= jj < j + 1 && (#[trigger] ids_and_moves@[jj]).0.0 as int == i;
                        assert(ids_and_moves@[w].0 == ids_and_moves@[j as int].0);
                        assert(w == j as int);
                    } else {
                        if exists|jj: int|
                            0 <= jj < j && (#[trigger] ids_and_moves@[jj]).0.0 as int == i {
                            let w0 = choose|jj: int|
                                0 <= jj < j && (#[trigger] ids_and_moves@[jj]).0.0 as int == i;
                            assert(0 <= w0 < j + 1 && ids_and_moves@[w0].0.0 as int == i);
                            let w1 = choose|jj: int|
                                0 <= jj < j + 1 && (#[trigger] ids_and_moves@[jj]).0.0 as int == i;
                            assert(ids_and_moves@[w1].0 == ids_and_moves@[w0].0);
                            assert(w1 == w0);
                        }
                    }
                }
            }
            j = j + 1;
        }
        proof {
            assert(moves@ =~= Action::spec_collect(ids_and_moves@, n_snakes));
        }
        Action { moves }
    }

    /// gets your move; you must have one in this action
    pub fn own_move(&self) -> (r: Move)
        requires
            self.spec_moves().len() > 0,
            self.spec_moves()[0] is Some,
        ensures
            Some(r) == self.spec_moves()[0],
    {
        self.moves[0].unwrap()
    }

    /// construct an OtherAction holding only the other agents' moves
    pub fn other_moves(&self) -> (r: OtherAction)
        requires
            self.spec_moves().len() > 0,
        ensures
            r.spec_moves() == self.spec_moves().update(0, None::<Move>),
    {
        let mut new_moves = self.moves.clone();
        new_moves[0] = None;
        OtherAction { moves: new_moves }
    }

    /// Get the inner vector back
    pub fn into_inner(self) -> (r: Vec<Option<Move>>)
        ensures
            r@ == self.spec_moves(),
    {
        self.moves
    }
}

/// Represents only the moves taken by the other agents in a game.
#[derive(Debug, Clone, PartialEq, Eq)]
pub struct OtherAction {
    /// slot `i` holds agent `i`'s chosen direction; slot 0 is always None
    pub moves: Vec<Option<Move>>,
}

impl OtherAction {
    /// What each slot of this action holds.
    pub open spec fn spec_moves(self) -> Seq<Option<Move>> {
        self.moves@
    }
}

/// The stable map from host id strings to small integer agent ids for one
/// game: slot `i` holds the id string of agent `i`, and you are agent 0.
/// Build it once on the first snapshot of a game and keep it, so agent ids
/// stay stable for the whole game.
#[derive(Debug, Clone, PartialEq, Eq)]
pub struct SnakeIDMap {
    /// slot `i` holds the host id string of agent `i`
    pub ids: Vec<String>,
}

/// The first slot of `ids` (from `from` on) whose string equals `id`.
pub open spec fn spec_lookup_from(ids: Seq<Seq<char>>, id: Seq<char>, from: nat) -> Option<int>
    decreases ids.len() - from,
{
    if from >= ids.len() {
        None
    } else if ids[from as int] == id {
        Some(from as int)
    } else {
        spec_lookup_from(ids, id, from + 1)
    }
}

impl SnakeIDMap {
    /// The id strings as sequences of characters.
    pub open spec fn spec_ids(self) -> Seq<Seq<char>> {
        self.ids@.map(|i: int, s: String| s@)
    }

    /// A map never holds more agents than ids fit in a byte.
    pub open spec fn wf(self) -> bool {
        self.ids@.len() <= 256
    }

    /// the agent id assigned to a host id string, if the string is known
    pub fn get(&self, id: &String) -> (r: Option<SnakeId>)
        requires
            self.wf(),
        ensures
            r matches Some(sid) ==> spec_lookup_from(self.spec_ids(), id@, 0) == Some(
                sid.0 as int,
            ),
            r is None ==> spec_lookup_from(self.spec_ids(), id@, 0) is None,
    {
        let mut j: usize = 0;
        while j < self.ids.len()
            invariant
                self.wf(),
                j <= self.ids@.len(),
                spec_lookup_from(self.spec_ids(), id@, 0) == spec_lookup_from(
                    self.spec_ids(),
                    id@,
                    j as nat,
                ),
            decreases self.ids@.len() - j,
        {
            if self.ids[j] == *id {
                return Some(SnakeId(j as u8));
            }
            j = j + 1;
        }
        None
    }
}

/// The id strings that follow `you` in the map built from the first `i`
/// snakes of the board: each snake's id in order, with yours left out.
pub open spec fn spec_other_ids(snakes: Seq<crate::wire_representation::BattleSnake>, you: Seq<
    char,
>, i: int) -> Seq<Seq<char>>
    decreases i,
{
    if i <= 0 {
        Seq::empty()
    } else if snakes[i - 1].id@ == you {
        spec_other_ids(snakes, you, i - 1)
    } else {
        spec_other_ids(snakes, you, i - 1).push(snakes[i - 1].id@)
    }
}

/// builds the snake id map for a given game: you get id 0, every other
/// snake gets the next id in board order
pub fn build_snake_id_map(g: &Game) -> (r: SnakeIDMap)
    requires
        g.board.snakes@.len() < 256,
    ensures
        r.wf(),
        r.spec_ids() == seq![g.you.id@] + spec_other_ids(
            g.board.snakes@,
            g.you.id@,
            g.board.snakes@.len() as int,
        ),
    {
    let mut ids: Vec<String> = Vec::new();
    ids.push(g.you.id.clone());
    let mut i: usize = 0;
    while i < g.board.snakes.len()
        invariant
            i <= g.board.snakes@.len(),
            g.board.snakes@.len() < 256,
            ids@.len() >= 1,
            ids@.len() <= 1 + i,
            ids@.map(|k: int, s: String| s@) == seq![g.you.id@] + spec_other_ids(
                g.board.snakes@,
                g.you.id@,
                i as int,
            ),
        decreases g.board.snakes@.len() - i,
    {
        let snake = &g.board.snakes[i];
        if !(snake.id == g.you.id) {
            ids.push(snake.id.clone());
            proof {
                assert(ids@.map(|k: int, s: String| s@) =~= (seq![g.you.id@] + spec_other_ids(
                    g.board.snakes@,
                    g.you.id@,
                    i as int,
                )).push(g.board.snakes@[i as int].id@));
                assert((seq![g.you.id@] + spec_other_ids(
                    g.board.snakes@,
                    g.you.id@,
                    i as int,
                )).push(g.board.snakes@[i as int].id@) =~= seq![g.you.id@] + spec_other_ids(
                    g.board.snakes@,
                    g.you.id@,
                    i + 1,
                ));
            }
        }
        i = i + 1;
    }
    let r = SnakeIDMap { ids };
    proof {
        assert(spec_other_ids(g.board.snakes@, g.you.id@, g.board.snakes@.len() as int).len()
            <= g.board.snakes@.len()) by {
            assert forall|n: int| 0 <= n <= g.board.snakes@.len() implies spec_other_ids(
                g.board.snakes@,
                g.you.id@,
                n,
            ).len() <= n by {
                lemma_other_ids_len(g.board.snakes@, g.you.id@, n);
            }
        }
    }
    r
}

/// The ids that follow yours are never more numerous than the snakes read.
proof fn lemma_other_ids_len(snakes: Seq<crate::wire_representation::BattleSnake>, you: Seq<
    char,
>, i: int)
    requires
        0 <= i <= snakes.len(),
    ensures
        spec_other_ids(snakes, you, i).len() <= i,
    decreases i,
{
    if i > 0 {
        lemma_other_ids_len(snakes, you, i - 1);
    }
}

} // verus!
