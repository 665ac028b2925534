//! The compact board under toroidal geometry: heads fold around the edges.
use vstd::prelude::*;

use crate::compact_representation::cell_board::{BoardModel, CellBoard as CCB, PackedCellBoard};
use crate::compact_representation::cell::{Cell, CellIndex, CellKind};
use crate::compact_representation::convert::{spec_body_malformed, spec_converted_board, spec_game_convertible, ConvertError};
use crate::compact_representation::eval::{spec_evaluate, spec_moves_view, spec_state_table, EvaluateMode};
use crate::compact_representation::simulate;
use crate::cross_product::spec_cross_product;
use crate::compact_representation::simulate::{spec_all_direction_requests, spec_filtered_lists};
use crate::types::{build_snake_id_map, spec_other_ids, Action, Move, SimulatorInstruments, SnakeId, SnakeIDMap};
use crate::wire_representation::{Game, Position};

verus! {

/// A compact board that evaluates moves under toroidal geometry.
#[derive(Debug, PartialEq, Eq)]
pub struct CellBoard {
    embedded: CCB,
}

impl View for CellBoard {
    type V = BoardModel;

    closed spec fn view(&self) -> BoardModel {
        self.embedded@
    }
}

impl Clone for CellBoard {
    /// A board copies as plain data: the copy has the same model.
    fn clone(&self) -> (r: CellBoard)
        ensures
            r@ == self@,
    {
        CellBoard { embedded: self.embedded.clone() }
    }
}

/// The id strings the default id map of a snapshot holds: yours first,
/// then every other snake's in board order.
pub open spec fn spec_default_ids(game: Game) -> Seq<Seq<char>> {
    seq![game.you.id@] + spec_other_ids(
        game.board.snakes@,
        game.you.id@,
        game.board.snakes@.len() as int,
    )
}

impl CellBoard {
    /// whether every alive agent's ring is intact; see the unwrapped check
    pub fn assert_consistency(&self) -> (r: bool)
        requires
            self@.wf(),
        ensures
            r == self@.spec_consistent(),
    {
        self.embedded.assert_consistency()
    }

    /// builds a wrapped board from a snapshot; a snapshot of any other rule
    /// set is refused with WrongMode
    pub fn convert_from_game(game: &Game, snake_ids: &SnakeIDMap, board_size: usize, max_snakes: usize) -> (r: Result<
        CellBoard,
        ConvertError,
    >)
        requires
            snake_ids.wf(),
            spec_game_convertible(*game, snake_ids.spec_ids(), max_snakes as int),
            board_size <= u16::MAX + 1,
            1 <= max_snakes <= 256,
        ensures
            r == Err::<CellBoard, ConvertError>(ConvertError::WrongMode) <==> !game.spec_is_wrapped(),
            r matches Err(e) ==> e == ConvertError::SizeMismatch || e
                == ConvertError::MalformedBody || e == ConvertError::WrongMode,
            game.spec_is_wrapped() ==> {
                &&& (r == Err::<CellBoard, ConvertError>(ConvertError::SizeMismatch) <==> (
                game.board.width * game.board.height > board_size || game.board.snakes@.len()
                    > max_snakes))
                &&& (r == Err::<CellBoard, ConvertError>(ConvertError::MalformedBody) <==> (!(
                game.board.width * game.board.height > board_size || game.board.snakes@.len()
                    > max_snakes) && exists|s: int|
                    0 <= s < game.board.snakes@.len() && spec_body_malformed(
                        (#[trigger] game.board.snakes@[s]).body@,
                    )))
                &&& (r matches Ok(b) ==> b@ == spec_converted_board(
                    *game,
                    snake_ids.spec_ids(),
                    board_size as int,
                    max_snakes as int,
                ) && b@.wf())
            },
    {
        if !game.is_wrapped() {
            return Err(ConvertError::WrongMode);
        }
        match CCB::convert_from_game(game, snake_ids, board_size, max_snakes) {
            Ok(embedded) => Ok(CellBoard { embedded }),
            Err(e) => Err(e),
        }
    }

    /// packs this board into its stable dict-of-arrays form
    pub fn pack_as_hash(&self) -> (r: PackedCellBoard)
        ensures
            r@ == BoardModel::spec_pack_board(self@),
    {
        self.embedded.pack_as_hash()
    }

    /// unpacks a board from its stable dict-of-arrays form
    pub fn from_packed_hash(hash: &PackedCellBoard) -> (r: CellBoard)
        requires
            hash@.packed_wf(),
        ensures
            r@ == BoardModel::spec_unpack_board(hash@),
            r@.wf(),
    {
        CellBoard { embedded: CCB::from_packed_hash(hash) }
    }

    /// simulates every joint move of the requested direction sets under
    /// toroidal geometry; see the core simulator for the exact account
    pub fn simulate_with_moves<I: SimulatorInstruments>(
        &self,
        instruments: &I,
        snake_ids_and_moves: &Vec<(SnakeId, Vec<Move>)>,
    ) -> (r: Vec<(Action, CellBoard)>)
        requires
            self@.wf(),
            forall|j: int|
                0 <= j < snake_ids_and_moves@.len() ==> ((#[trigger] snake_ids_and_moves@[j]).0.0
                    as int) < self@.healths.len(),
            forall|j: int|
                0 <= j < snake_ids_and_moves@.len() ==> (
                #[trigger] snake_ids_and_moves@[j]).1@.len() >= 1,
            forall|j1: int, j2: int|
                0 <= j1 < j2 < snake_ids_and_moves@.len() ==> (
                #[trigger] snake_ids_and_moves@[j1]).0 != (
                #[trigger] snake_ids_and_moves@[j2]).0,
        ensures
            ({
                let mv = spec_moves_view(snake_ids_and_moves@);
                let table = spec_state_table(self@, mv, EvaluateMode::Wrapped);
                let combos = spec_cross_product(spec_filtered_lists(mv, table));
                &&& r@.len() == combos.len()
                &&& forall|k: int|
                    0 <= k < r@.len() ==> {
                        &&& (#[trigger] r@[k]).1@ == spec_evaluate(self@, combos[k], table)
                        &&& r@[k].1@.wf()
                        &&& r@[k].0.spec_moves() == Action::spec_collect(
                            combos[k],
                            self@.healths.len() as usize,
                        )
                    }
            }),
    {
        let results = simulate::simulate_with_moves(
            &self.embedded,
            instruments,
            snake_ids_and_moves,
            EvaluateMode::Wrapped,
        );
        let mut out: Vec<(Action, CellBoard)> = Vec::new();
        let mut k: usize = 0;
        while k < results.len()
            invariant
                k <= results@.len(),
                out@.len() == k,
                forall|kk: int|
                    0 <= kk < k ==> (#[trigger] out@[kk]).1@ == results@[kk].1@
                        && out@[kk].0.spec_moves() == results@[kk].0.spec_moves(),
            decreases results@.len() - k,
        {
            let action = results[k].0.clone();
            let board = results[k].1.clone();
            out.push((action, CellBoard { embedded: board }));
            k = k + 1;
        }
        out
    }

    /// simulates with every direction allowed for each given agent
    pub fn simulate<I: SimulatorInstruments>(&self, instruments: &I, snake_ids: &Vec<SnakeId>) -> (r:
        Vec<(Action, CellBoard)>)
        requires
            self@.wf(),
            forall|j: int|
                0 <= j < snake_ids@.len() ==> ((#[trigger] snake_ids@[j]).0 as int)
                    < self@.healths.len(),
            forall|j1: int, j2: int|
                0 <= j1 < j2 < snake_ids@.len() ==> #[trigger] snake_ids@[j1]
                    != #[trigger] snake_ids@[j2],
        ensures
            ({
                let mv = spec_all_direction_requests(snake_ids@);
                let table = spec_state_table(self@, mv, EvaluateMode::Wrapped);
                let combos = spec_cross_product(spec_filtered_lists(mv, table));
                &&& r@.len() == combos.len()
                &&& forall|k: int|
                    0 <= k < r@.len() ==> {
                        &&& (#[trigger] r@[k]).1@ == spec_evaluate(self@, combos[k], table)
                        &&& r@[k].1@.wf()
                        &&& r@[k].0.spec_moves() == Action::spec_collect(
                            combos[k],
                            self@.healths.len() as usize,
                        )
                    }
            }),
    {
        let mut build: Vec<(SnakeId, Vec<Move>)> = Vec::new();
        let mut j: usize = 0;
        while j < snake_ids.len()
            invariant
                j <= snake_ids@.len(),
                build@.len() == j,
                forall|jj: int|
                    0 <= jj < j ==> (#[trigger] build@[jj]).0 == snake_ids@[jj] && build@[jj].1@
                        == seq![Move::Up, Move::Down, Move::Left, Move::Right],
            decreases snake_ids@.len() - j,
        {
            let mut all: Vec<Move> = Vec::new();
            all.push(Move::Up);
            all.push(Move::Down);
            all.push(Move::Left);
            all.push(Move::Right);
            proof {
                assert(all@ =~= seq![Move::Up, Move::Down, Move::Left, Move::Right]);
            }
            build.push((snake_ids[j], all));
            j = j + 1;
        }
        proof {
            assert(spec_moves_view(build@) =~= spec_all_direction_requests(snake_ids@));
        }
        self.simulate_with_moves(instruments, &build)
    }

    /// The surviving directions the wrapped reasonable-move filter keeps
    /// for one agent: the wrapped step must land on a square that is not a
    /// snake piece, or is some agent's unstacked tail about to vacate.
    pub open spec fn spec_reasonable_moves(self, i: int) -> Seq<Move> {
        let kept = Seq::new(
            4,
            |k: int| Move::spec_from_index(k as usize),
        ).filter(|m: Move| self@.spec_reasonable(i, m));
        if kept.len() == 0 {
            seq![Move::Up]
        } else {
            kept
        }
    }

    /// the reasonable moves of every alive agent: each direction whose
    /// wrapped step lands on a square that is not a snake piece, or is an
    /// unstacked tail; an agent with none keeps Up
    #[verifier::loop_isolation(false)]
    pub fn reasonable_moves_for_each_snake(&self) -> (r: Vec<(SnakeId, Vec<Move>)>)
        requires
            self@.wf(),
        ensures
            r@.len() == BoardModel::spec_alive_ids(self@.healths, self@.healths.len() as int).len(),
            forall|k: int|
                0 <= k < r@.len() ==> (#[trigger] r@[k]).0 == BoardModel::spec_alive_ids(
                    self@.healths,
                    self@.healths.len() as int,
                )[k] && r@[k].1@ == self.spec_reasonable_moves(r@[k].0.0 as int),
    {
        let ids = self.embedded.get_snake_ids();
        proof {
            BoardModel::lemma_alive_ids_first(self@.healths, self@.healths.len() as int);
        }
        let mut out: Vec<(SnakeId, Vec<Move>)> = Vec::new();
        let mut k: usize = 0;
        while k < ids.len()
            invariant
                k <= ids@.len(),
                ids@ == BoardModel::spec_alive_ids(self@.healths, self@.healths.len() as int),
                forall|w: int|
                    0 <= w < ids@.len() ==> 0 <= (#[trigger] ids@[w]).0 && (ids@[w].0 as int)
                        < self@.healths.len(),
                out@.len() == k,
                forall|w: int|
                    0 <= w < k ==> (#[trigger] out@[w]).0 == ids@[w] && out@[w].1@
                        == self.spec_reasonable_moves(ids@[w].0 as int),
            decreases ids@.len() - k,
        {
            let sid = ids[k];
            let mut kept: Vec<Move> = Vec::new();
            let mut mi: usize = 0;
            while mi < 4
                invariant
                    mi <= 4,
                    (sid.0 as int) < self@.healths.len(),
                    kept@ == Seq::new(
                        mi as nat,
                        |q: int| Move::spec_from_index(q as usize),
                    ).filter(|m: Move| self@.spec_reasonable(sid.0 as int, m)),
                decreases 4 - mi,
            {
                let m = Move::from_index(mi);
                if self.is_reasonable(sid, m) {
                    kept.push(m);
                }
                proof {
                    reveal_with_fuel(Seq::filter, 2);
                    assert(Seq::new((mi + 1) as nat, |q: int| Move::spec_from_index(q as usize)).drop_last()
                        =~= Seq::new(mi as nat, |q: int| Move::spec_from_index(q as usize)));
                    assert(Seq::new((mi + 1) as nat, |q: int| Move::spec_from_index(q as usize)).last()
                        == Move::spec_from_index(mi));
                    assert(kept@ == Seq::new(
                        (mi + 1) as nat,
                        |q: int| Move::spec_from_index(q as usize),
                    ).filter(|m: Move| self@.spec_reasonable(sid.0 as int, m)));
                }
                mi = mi + 1;
            }
            if kept.len() == 0 {
                kept.push(Move::Up);
            }
            out.push((sid, kept));
            k = k + 1;
        }
        out
    }

    /// one uniformly chosen reasonable move per alive agent; the draw is
    /// random, so only membership in the reasonable set is promised
    pub fn random_reasonable_move_for_each_snake(&self) -> (r: Vec<(SnakeId, Move)>)
        requires
            self@.wf(),
        ensures
            r@.len() == BoardModel::spec_alive_ids(self@.healths, self@.healths.len() as int).len(),
            forall|k: int|
                0 <= k < r@.len() ==> (#[trigger] r@[k]).0 == BoardModel::spec_alive_ids(
                    self@.healths,
                    self@.healths.len() as int,
                )[k] && self.spec_reasonable_moves(r@[k].0.0 as int).contains(r@[k].1),
    {
        let all = self.reasonable_moves_for_each_snake();
        let mut out: Vec<(SnakeId, Move)> = Vec::new();
        let mut k: usize = 0;
        while k < all.len()
            invariant
                k <= all@.len(),
                out@.len() == k,
                all@.len() == BoardModel::spec_alive_ids(
                    self@.healths,
                    self@.healths.len() as int,
                ).len(),
                forall|w: int|
                    0 <= w < all@.len() ==> (#[trigger] all@[w]).0 == BoardModel::spec_alive_ids(
                        self@.healths,
                        self@.healths.len() as int,
                    )[w] && all@[w].1@ == self.spec_reasonable_moves(all@[w].0.0 as int),
                forall|w: int|
                    0 <= w < k ==> (#[trigger] out@[w]).0 == BoardModel::spec_alive_ids(
                        self@.healths,
                        self@.healths.len() as int,
                    )[w] && self.spec_reasonable_moves(out@[w].0.0 as int).contains(out@[w].1),
            decreases all@.len() - k,
        {
            let (sid, mvs) = &all[k];
            proof {
                assert(all@[k as int].1@ == self.spec_reasonable_moves(
                    all@[k as int].0.0 as int,
                ));
                assert(self.spec_reasonable_moves(all@[k as int].0.0 as int).len() >= 1);
            }
            let pick = crate::random_source::random_index_below(mvs.len());
            out.push((*sid, mvs[pick]));
            k = k + 1;
        }
        out
    }

    /// Whether one direction is reasonable for an agent under toroidal
    /// geometry.
    fn is_reasonable(&self, sid: SnakeId, m: Move) -> (r: bool)
        requires
            self@.wf(),
            (sid.0 as int) < self@.healths.len(),
        ensures
            r == self@.spec_reasonable(sid.0 as int, m),
    {
        let head_pos = self.embedded.get_head_as_position(&sid);
        let v = m.to_vector();
        let np = head_pos.add_vec(v);
        proof {
            let w = self@.width as int;
            let h = self@.height as int;
            let idx = self@.heads[sid.0 as int].0 as int;
            let hp = self@.heads[sid.0 as int].spec_position(self@.width);
            vstd::arithmetic::div_mod::lemma_fundamental_div_mod(idx, w);
            vstd::arithmetic::div_mod::lemma_mod_bound(idx, w);
            vstd::arithmetic::div_mod::lemma_div_is_ordered(0, idx, w);
            assert((idx / w) * w == w * (idx / w)) by (nonlinear_arith);
            assert(hp.y * w + hp.x == idx);
            assert(hp.y < h) by (nonlinear_arith)
                requires
                    hp.y * w + hp.x == idx,
                    idx < w * h,
                    0 <= hp.x,
                    w >= 1,
                    0 <= hp.y,
            ;
        }
        let ci = self.embedded.as_wrapped_cell_index(np);
        let cell_body = self.embedded.cell_is_body(ci);
        let cell_head = self.embedded.cell_is_snake_head(ci);
        let single_tail = self.embedded.cell_is_single_tail(ci);
        (!cell_body && !cell_head) || single_tail
    }
}

impl BoardModel {
    /// Whether one direction is reasonable for an agent under toroidal
    /// geometry: the wrapped step lands on a square that is not a snake
    /// piece, or on an unstacked tail that will vacate this turn.
    pub open spec fn spec_reasonable(self, i: int, m: Move) -> bool {
        let hp = self.heads[i].spec_position(self.width);
        let v = m.spec_to_vector();
        let np = Position { x: (hp.x + v.x) as i32, y: (hp.y + v.y) as i32 };
        let wp = self.spec_wrap(np);
        let ci = CellIndex((wp.y * self.width + wp.x) as u16);
        let cell = self.cells[ci.0 as int];
        (!cell.spec_is_body_segment() && !cell.spec_is_head()) || self.spec_is_single_tail(ci)
    }
}


impl CellBoard {
    /// the health of a given agent; zero means dead
    pub fn get_health(&self, snake_id: &SnakeId) -> (r: u8)
        requires
            (snake_id.0 as int) < self@.healths.len(),
        ensures
            r == self@.healths[snake_id.0 as int],
    {
        self.embedded.get_health(snake_id)
    }

    /// the length of a given agent
    pub fn get_length(&self, snake_id: SnakeId) -> (r: u16)
        requires
            (snake_id.0 as int) < self@.lengths.len(),
        ensures
            r == self@.lengths[snake_id.0 as int],
    {
        self.embedded.get_length(snake_id)
    }

    /// the head of a given agent as a position
    pub fn get_head_as_position(&self, snake_id: &SnakeId) -> (r: Position)
        requires
            self@.wf(),
            (snake_id.0 as int) < self@.heads.len(),
        ensures
            r == self@.heads[snake_id.0 as int].spec_position(self@.width),
    {
        self.embedded.get_head_as_position(snake_id)
    }

    /// the head index of a given agent
    pub fn get_head_as_native_position(&self, snake_id: &SnakeId) -> (r: CellIndex)
        requires
            (snake_id.0 as int) < self@.heads.len(),
        ensures
            r == self@.heads[snake_id.0 as int],
    {
        self.embedded.get_head_as_native_position(snake_id)
    }

    /// whether a given agent id is you: you are always agent 0
    pub fn is_you(&self, snake_id: &SnakeId) -> (r: bool)
        ensures
            r == (snake_id.0 == 0),
    {
        self.embedded.is_you(snake_id)
    }

    /// your agent id
    pub fn you_id(&self) -> (r: SnakeId)
        ensures
            r == SnakeId(0),
    {
        self.embedded.you_id()
    }

    /// whether this game is over: you are dead, or at most one agent lives
    pub fn is_over(&self) -> (r: bool)
        requires
            self@.healths.len() >= 1,
        ensures
            r == self@.spec_is_over(),
    {
        self.embedded.is_over()
    }

    /// the winner: the unique agent left alive once the game is over
    pub fn get_winner(&self) -> (r: Option<SnakeId>)
        requires
            self@.healths.len() >= 1,
            self@.healths.len() <= 256,
        ensures
            r == self@.spec_winner(),
    {
        self.embedded.get_winner()
    }

    /// how many agents are alive
    pub fn alive_snake_count(&self) -> (r: usize)
        ensures
            r == BoardModel::spec_alive_count(self@.healths, self@.healths.len() as int),
    {
        self.embedded.alive_snake_count()
    }

    /// ids of the agents still alive, in ascending order
    pub fn get_snake_ids(&self) -> (r: Vec<SnakeId>)
        requires
            self@.healths.len() <= 256,
        ensures
            r@ == BoardModel::spec_alive_ids(self@.healths, self@.healths.len() as int),
    {
        self.embedded.get_snake_ids()
    }

    /// how much health a hazard square costs per turn
    pub fn get_hazard_damage(&self) -> (r: u8)
        ensures
            r == self@.hazard_damage,
    {
        self.embedded.get_hazard_damage()
    }

    /// whether the square at the given index is hazardous
    pub fn is_hazard(&self, pos: &CellIndex) -> (r: bool)
        requires
            pos.0 < self@.cells.len(),
        ensures
            r == self@.cells[pos.0 as int].hazard,
    {
        self.embedded.cell_is_hazard(*pos)
    }

    /// whether the square at the given index holds food
    pub fn is_food(&self, pos: &CellIndex) -> (r: bool)
        requires
            pos.0 < self@.cells.len(),
        ensures
            r == (self@.cells[pos.0 as int].kind == CellKind::Food),
    {
        self.embedded.cell_is_food(*pos)
    }

    /// whether the given index is the neck of the given agent
    pub fn is_neck(&self, sid: &SnakeId, pos: &CellIndex) -> (r: bool)
        requires
            self@.wf(),
            (sid.0 as int) < self@.heads.len(),
            pos.0 < self@.cells.len(),
        ensures
            r == (self@.cells[pos.0 as int].spec_snake_id() == Some(*sid)
                && self@.cells[pos.0 as int].spec_next_index() == Some(self@.heads[sid.0 as int])),
    {
        self.embedded.is_neck(sid, pos)
    }

    /// marks the square at the given index hazardous
    pub fn set_hazard(&mut self, pos: CellIndex)
        requires
            pos.0 < old(self)@.cells.len(),
        ensures
            final(self)@ == (BoardModel {
                cells: old(self)@.cells.update(
                    pos.0 as int,
                    Cell { hazard: true, ..old(self)@.cells[pos.0 as int] },
                ),
                ..old(self)@
            }),
    {
        self.embedded.set_hazard(pos);
    }

    /// clears the hazard mark of the square at the given index
    pub fn clear_hazard(&mut self, pos: CellIndex)
        requires
            pos.0 < old(self)@.cells.len(),
        ensures
            final(self)@ == (BoardModel {
                cells: old(self)@.cells.update(
                    pos.0 as int,
                    Cell { hazard: false, ..old(self)@.cells[pos.0 as int] },
                ),
                ..old(self)@
            }),
    {
        self.embedded.clear_hazard(pos);
    }

    /// the width of the board
    pub fn get_width(&self) -> (r: u32)
        ensures
            r == self@.width,
    {
        self.embedded.get_actual_width() as u32
    }

    /// the height of the board
    pub fn get_height(&self) -> (r: u32)
        ensures
            r == self@.height,
    {
        self.embedded.get_actual_height() as u32
    }

    /// determines if a given position is not on the board
    pub fn off_board(&self, position: Position) -> (r: bool)
        ensures
            r == self@.spec_off_board(position),
    {
        self.embedded.off_board(position)
    }

    /// an agent's body squares ordered head first, stacked squares repeated
    pub fn get_snake_body_vec(&self, snake_id: &SnakeId) -> (r: Vec<CellIndex>)
        requires
            self@.wf(),
            (snake_id.0 as int) < self@.heads.len(),
        ensures
            r@ == BoardModel::spec_body_chain_stacked(
                self@.cells,
                self@.cells[self@.heads[snake_id.0 as int].0 as int].spec_tail_position(
                    self@.heads[snake_id.0 as int],
                ),
                (self@.cells.len() + 1) as nat,
            ).reverse(),
    {
        self.embedded.get_snake_body_vec(snake_id)
    }

    /// the distinct squares of an agent's body, tail to head
    pub fn get_snake_body_iter(&self, snake_id: &SnakeId) -> (r: Vec<CellIndex>)
        requires
            self@.wf(),
            (snake_id.0 as int) < self@.heads.len(),
        ensures
            r@ == BoardModel::spec_body_chain(
                self@.cells,
                self@.cells[self@.heads[snake_id.0 as int].0 as int].spec_tail_position(
                    self@.heads[snake_id.0 as int],
                ),
                (self@.cells.len() + 1) as nat,
            ),
    {
        self.embedded.get_snake_body_iter(snake_id)
    }

    /// every empty cell of the board, in index order
    pub fn get_empty_cells(&self) -> (r: Vec<CellIndex>)
        requires
            self@.wf(),
        ensures
            r@ == BoardModel::spec_empty_cells(self@.cells, self@.cells.len() as int),
    {
        self.embedded.get_empty_cells()
    }

    /// every food cell of the board, in index order
    pub fn get_all_food_as_native_positions(&self) -> (r: Vec<CellIndex>)
        requires
            self@.wf(),
        ensures
            r@ == BoardModel::spec_food_cells(self@.cells, self@.cells.len() as int),
    {
        self.embedded.get_all_food_as_native_positions()
    }

    /// every food cell of the board as a position, in index order
    pub fn get_all_food_as_positions(&self) -> (r: Vec<Position>)
        requires
            self@.wf(),
        ensures
            r@ == BoardModel::spec_food_cells(self@.cells, self@.cells.len() as int).map(
                |k: int, ci: CellIndex| ci.spec_position(self@.width),
            ),
    {
        self.embedded.get_all_food_as_positions()
    }

    /// places food for rollout play: when the board has none, one uniformly
    /// chosen empty square becomes food; otherwise one more is added with
    /// probability fifteen in one hundred
    pub fn place_food(&mut self)
        requires
            old(self)@.wf(),
        ensures
            ({
                let b = old(self)@;
                let had_food = exists|i: int|
                    0 <= i < b.cells.len() && (#[trigger] b.cells[i]).kind == CellKind::Food;
                let has_empty = exists|i: int|
                    0 <= i < b.cells.len() && (#[trigger] b.cells[i]).kind == CellKind::Empty;
                let placed_one = exists|i: int|
                    0 <= i < b.cells.len() && (#[trigger] b.cells[i]).kind == CellKind::Empty
                        && final(self)@ == (BoardModel {
                        cells: b.cells.update(i, Cell { kind: CellKind::Food, ..b.cells[i] }),
                        ..b
                    });
                &&& (!had_food && has_empty ==> placed_one)
                &&& (!had_food && !has_empty ==> final(self)@ == b)
                &&& (had_food ==> final(self)@ == b || placed_one)
            }),
            final(self)@.wf(),
    {
        self.embedded.place_food();
    }
}


/// The moves possible from a square under toroidal geometry, scanning the
/// first `k` directions in index order: every direction, with the wrapped
/// index it lands on.
pub open spec fn spec_possible_moves_wrapped(b: BoardModel, p: Position, k: int) -> Seq<
    (Move, CellIndex),
>
    decreases k,
{
    if k <= 0 {
        Seq::empty()
    } else {
        let prev = spec_possible_moves_wrapped(b, p, k - 1);
        let m = Move::spec_from_index((k - 1) as usize);
        let v = m.spec_to_vector();
        let np = Position { x: (p.x + v.x) as i32, y: (p.y + v.y) as i32 };
        let wp = b.spec_wrap(np);
        prev.push((m, CellIndex((wp.y * b.width + wp.x) as u16)))
    }
}

impl CellBoard {
    /// the moves possible from a square and the wrapped index each lands on
    #[verifier::loop_isolation(false)]
    pub fn possible_moves(&self, pos: &CellIndex) -> (r: Vec<(Move, CellIndex)>)
        requires
            self@.wf(),
            pos.0 < self@.width * self@.height,
        ensures
            r@ == spec_possible_moves_wrapped(self@, pos.spec_position(self@.width), 4),
    {
        let p = self.embedded.position_from_native(*pos);
        let mut out: Vec<(Move, CellIndex)> = Vec::new();
        let mut k: usize = 0;
        while k < 4
            invariant
                k <= 4,
                out@ == spec_possible_moves_wrapped(self@, p, k as int),
            decreases 4 - k,
        {
            let m = Move::from_index(k);
            let v = m.to_vector();
            proof {
                let w = self@.width as int;
                let h = self@.height as int;
                let idx = pos.0 as int;
                vstd::arithmetic::div_mod::lemma_fundamental_div_mod(idx, w);
                vstd::arithmetic::div_mod::lemma_mod_bound(idx, w);
                vstd::arithmetic::div_mod::lemma_div_is_ordered(0, idx, w);
                assert((idx / w) * w == w * (idx / w)) by (nonlinear_arith);
                assert(p.y * w + p.x == idx);
                assert(p.y < h) by (nonlinear_arith)
                    requires
                        p.y * w + p.x == idx,
                        idx < w * h,
                        0 <= p.x,
                        w >= 1,
                        0 <= p.y,
                ;
            }
            let np = p.add_vec(v);
            let ci = self.embedded.as_wrapped_cell_index(np);
            out.push((m, ci));
            k = k + 1;
        }
        out
    }

    /// the squares next to a given one under toroidal geometry, in
    /// direction index order
    pub fn neighbors(&self, pos: &CellIndex) -> (r: Vec<CellIndex>)
        requires
            self@.wf(),
            pos.0 < self@.width * self@.height,
        ensures
            r@ == spec_possible_moves_wrapped(self@, pos.spec_position(self@.width), 4).map(
                |k: int, pr: (Move, CellIndex)| pr.1,
            ),
    {
        let moves = self.possible_moves(pos);
        let mut out: Vec<CellIndex> = Vec::new();
        let mut k: usize = 0;
        while k < moves.len()
            invariant
                k <= moves@.len(),
                out@ =~= moves@.take(k as int).map(|q: int, pr: (Move, CellIndex)| pr.1),
            decreases moves@.len() - k,
        {
            out.push(moves[k].1);
            proof {
                assert(moves@.take(k + 1) =~= moves@.take(k as int).push(moves@[k as int]));
                assert(out@ =~= moves@.take(k + 1).map(|q: int, pr: (Move, CellIndex)| pr.1));
            }
            k = k + 1;
        }
        proof {
            assert(moves@.take(moves@.len() as int) =~= moves@);
        }
        out
    }
}

/// A compact board sized right for a given snapshot under toroidal
/// geometry.
#[derive(Debug)]
pub enum BestCellBoard {
    /// at most seven squares a side, up to four agents
    Tiny(Box<CellBoard>),
    /// exactly seven squares a side, up to four agents
    SmallExact(Box<CellBoard>),
    /// at most eleven squares a side, up to four agents
    Standard(Box<CellBoard>),
    /// exactly eleven squares a side, up to four agents
    MediumExact(Box<CellBoard>),
    /// at most fifteen squares a side, up to eight agents
    LargestU8(Box<CellBoard>),
    /// exactly nineteen squares a side, up to four agents
    LargeExact(Box<CellBoard>),
    /// the arcade maze map, up to four agents
    ArcadeMaze(Box<CellBoard>),
    /// the arcade maze map, up to eight agents
    ArcadeMaze8Snake(Box<CellBoard>),
    /// at most twenty-five squares a side, up to eight agents
    Large(Box<CellBoard>),
    /// at most fifty squares a side, up to sixteen agents
    Silly(Box<CellBoard>),
}

/// The agent capacity of the sizing tier a snapshot falls in under
/// toroidal geometry, or zero when no tier fits it.
pub open spec fn spec_tier_max_snakes_wrapped(game: Game) -> int {
    let w = game.board.width;
    let h = game.board.height;
    let n = game.board.snakes@.len();
    if w == 7 && h == 7 && n <= 4 {
        4
    } else if w <= 7 && h <= 7 && n <= 4 {
        4
    } else if w == 11 && h == 11 && n <= 4 {
        4
    } else if w <= 11 && h <= 11 && n <= 4 {
        4
    } else if w <= 15 && h <= 15 && n <= 8 {
        8
    } else if w == 19 && h == 19 && n <= 4 {
        4
    } else if w == 19 && h == 21 && n <= 4 {
        4
    } else if w == 19 && h == 21 && n <= 8 {
        8
    } else if w <= 25 && h < 25 && n <= 8 {
        8
    } else if w <= 50 && h <= 50 && n <= 16 {
        16
    } else {
        0
    }
}

/// Conversion into the smallest compact board specialization that fits the
/// snapshot under toroidal geometry.
pub trait ToBestCellBoard: Sized {
    /// Which snapshots this conversion accepts.
    spec fn spec_can_best(self) -> bool;

    /// What the conversion answers: the right tier, correctly converted,
    /// or the error the snapshot earns.
    spec fn spec_tier_ok(self, r: Result<BestCellBoard, ConvertError>) -> bool;

    /// pick the smallest compact board specialization that fits
    fn to_best_cell_board(self) -> (r: Result<BestCellBoard, ConvertError>)
        requires
            self.spec_can_best(),
        ensures
            self.spec_tier_ok(r),
    ;
}

/// The cell capacity of the sizing tier a snapshot falls in under
/// toroidal geometry, or zero when no tier fits it.
pub open spec fn spec_tier_board_size_wrapped(game: Game) -> int {
    let w = game.board.width;
    let h = game.board.height;
    let n = game.board.snakes@.len();
    if w == 7 && h == 7 && n <= 4 {
        49
    } else if w <= 7 && h <= 7 && n <= 4 {
        49
    } else if w == 11 && h == 11 && n <= 4 {
        121
    } else if w <= 11 && h <= 11 && n <= 4 {
        121
    } else if w <= 15 && h <= 15 && n <= 8 {
        225
    } else if w == 19 && h == 19 && n <= 4 {
        361
    } else if w == 19 && h == 21 && n <= 4 {
        399
    } else if w == 19 && h == 21 && n <= 8 {
        399
    } else if w <= 25 && h < 25 && n <= 8 {
        625
    } else if w <= 50 && h <= 50 && n <= 16 {
        2500
    } else {
        0
    }
}

impl ToBestCellBoard for Game {
    /// A snapshot fits when some tier takes it and the snapshot is sound
    /// for that tier's agent capacity under its own id map.
    open spec fn spec_can_best(self) -> bool {
        &&& self.board.snakes@.len() < 256
        &&& spec_tier_max_snakes_wrapped(self) > 0
        &&& spec_game_convertible(self, spec_default_ids(self), spec_tier_max_snakes_wrapped(self))
    }

    /// The selected tier holds the correctly converted board, and every
    /// error names exactly what the snapshot earns against its tier.
    open spec fn spec_tier_ok(self, r: Result<BestCellBoard, ConvertError>) -> bool {
        let w = self.board.width;
        let h = self.board.height;
        let n = self.board.snakes@.len();
        let bsz = spec_tier_board_size_wrapped(self);
        let mx = spec_tier_max_snakes_wrapped(self);
        let ids = spec_default_ids(self);
        let size_bad = w * h > bsz || n > mx;
        let malformed = exists|s: int|
            0 <= s < self.board.snakes@.len() && spec_body_malformed(
                (#[trigger] self.board.snakes@[s]).body@,
            );
        match r {
            Result::Err(e) => {
                &&& (e == ConvertError::WrongMode <==> !self.spec_is_wrapped())
                &&& (e == ConvertError::SizeMismatch <==> (self.spec_is_wrapped() && size_bad))
                &&& (e == ConvertError::MalformedBody <==> (self.spec_is_wrapped() && !size_bad
                    && malformed))
            },
            Result::Ok(bb) => {
                &&& self.spec_is_wrapped()
                &&& !size_bad
                &&& !malformed
                &&& match bb {
                    BestCellBoard::SmallExact(b) => w == 7 && h == 7 && n <= 4 && b@
                        == spec_converted_board(self, ids, 49, 4),
                    BestCellBoard::Tiny(b) => !(w == 7 && h == 7) && w <= 7 && h <= 7 && n <= 4
                        && b@ == spec_converted_board(self, ids, 49, 4),
                    BestCellBoard::Standard(b) => !(w <= 7 && h <= 7) && !(w == 11 && h == 11) && w
                        <= 11 && h <= 11 && n <= 4 && b@ == spec_converted_board(
                        self,
                        ids,
                        121,
                        4,
                    ),
                    BestCellBoard::MediumExact(b) => w == 11 && h == 11 && n <= 4 && b@
                        == spec_converted_board(self, ids, 121, 4),
                    BestCellBoard::LargestU8(b) => b@ == spec_converted_board(self, ids, 225, 8),
                    BestCellBoard::LargeExact(b) => w == 19 && h == 19 && n <= 4 && b@
                        == spec_converted_board(self, ids, 361, 4),
                    BestCellBoard::ArcadeMaze(b) => w == 19 && h == 21 && n <= 4 && b@
                        == spec_converted_board(self, ids, 399, 4),
                    BestCellBoard::ArcadeMaze8Snake(b) => w == 19 && h == 21 && n > 4 && n <= 8
                        && b@ == spec_converted_board(self, ids, 399, 8),
                    BestCellBoard::Large(b) => b@ == spec_converted_board(self, ids, 625, 8),
                    BestCellBoard::Silly(b) => b@ == spec_converted_board(self, ids, 2500, 16),
                }
            },
        }
    }

    fn to_best_cell_board(self) -> (r: Result<BestCellBoard, ConvertError>) {
        let width = self.board.width;
        let height = self.board.height;
        let num_snakes = self.board.snakes.len();
        let id_map = build_snake_id_map(&self);
        if width == 7 && height == 7 && num_snakes <= 4 {
            match CellBoard::convert_from_game(&self, &id_map, 49, 4) {
                Ok(b) => Ok(BestCellBoard::SmallExact(Box::new(b))),
                Err(e) => Err(e),
            }
        } else if width <= 7 && height <= 7 && num_snakes <= 4 {
            match CellBoard::convert_from_game(&self, &id_map, 49, 4) {
                Ok(b) => Ok(BestCellBoard::Tiny(Box::new(b))),
                Err(e) => Err(e),
            }
        } else if width == 11 && height == 11 && num_snakes <= 4 {
            match CellBoard::convert_from_game(&self, &id_map, 121, 4) {
                Ok(b) => Ok(BestCellBoard::MediumExact(Box::new(b))),
                Err(e) => Err(e),
            }
        } else if width <= 11 && height <= 11 && num_snakes <= 4 {
            match CellBoard::convert_from_game(&self, &id_map, 121, 4) {
                Ok(b) => Ok(BestCellBoard::Standard(Box::new(b))),
                Err(e) => Err(e),
            }
        } else if width <= 15 && height <= 15 && num_snakes <= 8 {
            match CellBoard::convert_from_game(&self, &id_map, 225, 8) {
                Ok(b) => Ok(BestCellBoard::LargestU8(Box::new(b))),
                Err(e) => Err(e),
            }
        } else if width == 19 && height == 19 && num_snakes <= 4 {
            match CellBoard::convert_from_game(&self, &id_map, 361, 4) {
                Ok(b) => Ok(BestCellBoard::LargeExact(Box::new(b))),
                Err(e) => Err(e),
            }
        } else if width == 19 && height == 21 && num_snakes <= 4 {
            match CellBoard::convert_from_game(&self, &id_map, 399, 4) {
                Ok(b) => Ok(BestCellBoard::ArcadeMaze(Box::new(b))),
                Err(e) => Err(e),
            }
        } else if width == 19 && height == 21 && num_snakes <= 8 {
            match CellBoard::convert_from_game(&self, &id_map, 399, 8) {
                Ok(b) => Ok(BestCellBoard::ArcadeMaze8Snake(Box::new(b))),
                Err(e) => Err(e),
            }
        } else if width <= 25 && height < 25 && num_snakes <= 8 {
            match CellBoard::convert_from_game(&self, &id_map, 625, 8) {
                Ok(b) => Ok(BestCellBoard::Large(Box::new(b))),
                Err(e) => Err(e),
            }
        } else {
            match CellBoard::convert_from_game(&self, &id_map, 2500, 16) {
                Ok(b) => Ok(BestCellBoard::Silly(Box::new(b))),
                Err(e) => Err(e),
            }
        }
    }
}

} // verus!
