//! The two-phase move evaluation engine: a per-agent, per-direction
//! precompute of each move's outcome in isolation, reused across every
//! joint move of the Cartesian product.
use vstd::prelude::*;

use crate::compact_representation::cell::{Cell, CellIndex, CellKind};
use crate::compact_representation::cell_board::{BoardModel, CellBoard};
use crate::types::{Move, SnakeId};
use crate::wire_representation::Position;

verus! {

/// Which geometry to evaluate moves under.
#[derive(Debug, Clone, Copy, PartialEq, Eq, Hash, Structural)]
pub enum EvaluateMode {
    /// toroidal geometry: heads fold around the edges
    Wrapped,
    /// bounded geometry: stepping off the board kills
    Standard,
}

/// Precomputed state for one agent's single move, evaluated in isolation.
#[derive(Debug, Clone, Copy, PartialEq, Eq, Structural)]
pub struct AliveMoveResult {
    /// the id of the agent this result belongs to
    pub id: SnakeId,
    /// where the head used to be
    pub old_head: CellIndex,
    /// where the head will be
    pub new_head: CellIndex,
    /// where the tail was previously
    pub old_tail: CellIndex,
    /// where the tail will be
    pub new_tail: CellIndex,
    /// the agent's health after the move
    pub new_health: u8,
    /// whether the move eats food
    pub ate_food: bool,
    /// the agent's length after the move, counting growth from eating
    pub new_length: u16,
}

/// The pre-captured state of the two-phase move evaluation for one agent
/// and one direction: what that move does in isolation. Agents can die in
/// this phase (off board, own neck, starvation) or later, in the joint
/// evaluation.
#[derive(Debug, Clone, Copy, PartialEq, Eq, Structural)]
pub enum SinglePlayerMoveResult {
    /// the agent survives its own move taken in isolation
    Alive(AliveMoveResult),
    /// the move kills the agent on its own: off the board under bounded
    /// geometry, into its own neck, or starved
    Dead,
}

impl SinglePlayerMoveResult {
    /// whether this result is a first-phase death
    pub fn is_dead(&self) -> (r: bool)
        ensures
            r == (*self is Dead),
    {
        matches!(self, SinglePlayerMoveResult::Dead)
    }
}

/// The predecessor of the head found by walking the ring from the tail:
/// the cell from which a link leads straight to the head. A walk that
/// sticks or runs out of fuel answers with the square it stood on.
pub open spec fn spec_neck_walk(
    cells: Seq<Cell>,
    curr: CellIndex,
    prev: CellIndex,
    head: CellIndex,
    fuel: nat,
) -> CellIndex
    decreases fuel,
{
    if curr == head {
        prev
    } else if fuel == 0 || curr.0 as int >= cells.len() {
        prev
    } else {
        match cells[curr.0 as int].spec_next_index() {
            None => curr,
            Some(n) => spec_neck_walk(cells, n, curr, head, (fuel - 1) as nat),
        }
    }
}

/// What one agent's move in one direction does in isolation: the rules of
/// section one of move resolution. Death comes from an empty health slot,
/// a broken head record, stepping off a bounded board, turning into the
/// own neck, or starving (hazard damage included); otherwise the move is
/// alive with its new head, tail, health and length.
pub open spec fn spec_single_move_result(
    b: BoardModel,
    id: SnakeId,
    m: Move,
    mode: EvaluateMode,
) -> SinglePlayerMoveResult {
    if b.healths[id.0 as int] == 0 {
        SinglePlayerMoveResult::Dead
    } else {
        let old_head = b.heads[id.0 as int];
        let head_cell = b.cells[old_head.0 as int];
        match head_cell.spec_tail_position(old_head) {
            None => SinglePlayerMoveResult::Dead,
            Some(old_tail) => {
                let pos = old_head.spec_position(b.width);
                let v = m.spec_to_vector();
                let np = Position { x: (pos.x + v.x) as i32, y: (pos.y + v.y) as i32 };
                if mode == EvaluateMode::Standard && b.spec_off_board(np) {
                    SinglePlayerMoveResult::Dead
                } else {
                    let wp = if mode == EvaluateMode::Wrapped {
                        b.spec_wrap(np)
                    } else {
                        np
                    };
                    let new_head = CellIndex((wp.y * b.width + wp.x) as u16);
                    let neck = spec_neck_walk(b.cells, old_tail, old_tail, old_head, b.cells.len());
                    if new_head == neck {
                        SinglePlayerMoveResult::Dead
                    } else {
                        let old_tail_cell = b.cells[old_tail.0 as int];
                        let stacked = old_tail_cell.kind == CellKind::DoubleStacked
                            || old_tail_cell.kind == CellKind::TripleStacked;
                        let new_tail_opt = if stacked {
                            Some(old_tail)
                        } else {
                            old_tail_cell.spec_next_index()
                        };
                        match new_tail_opt {
                            None => SinglePlayerMoveResult::Dead,
                            Some(new_tail) => {
                                let h0 = b.healths[id.0 as int];
                                let h1: u8 = (h0 - 1) as u8;
                                let h2: u8 = if b.cells[new_head.0 as int].hazard {
                                    if h1 >= b.hazard_damage {
                                        (h1 - b.hazard_damage) as u8
                                    } else {
                                        0u8
                                    }
                                } else {
                                    h1
                                };
                                let ate = b.cells[new_head.0 as int].kind == CellKind::Food;
                                let new_health: u8 = if ate {
                                    100u8
                                } else {
                                    h2
                                };
                                let l0 = b.lengths[id.0 as int];
                                let new_length: u16 = if ate {
                                    if l0 == u16::MAX {
                                        l0
                                    } else {
                                        (l0 + 1) as u16
                                    }
                                } else {
                                    l0
                                };
                                if new_health == 0 {
                                    SinglePlayerMoveResult::Dead
                                } else {
                                    SinglePlayerMoveResult::Alive(
                                        AliveMoveResult {
                                            id,
                                            old_head,
                                            new_head,
                                            old_tail,
                                            new_tail,
                                            new_health,
                                            ate_food: ate,
                                            new_length,
                                        },
                                    )
                                }
                            },
                        }
                    }
                }
            },
        }
    }
}

/// What every Alive entry of a precomputed table guarantees: its indices
/// address the board and its agent id one of the board's slots.
pub open spec fn spec_table_entry_wf(e: SinglePlayerMoveResult, b: BoardModel) -> bool {
    e matches SinglePlayerMoveResult::Alive(a) ==> {
        &&& (a.id.0 as int) < b.healths.len()
        &&& a.old_head.0 < b.width * b.height
        &&& a.old_tail.0 < b.cells.len()
        &&& a.new_tail.0 < b.cells.len()
        &&& a.new_head.0 < b.width * b.height
    }
}

/// An alive single-move result on a well-formed board stays within it.
pub proof fn lemma_single_move_wf(b: BoardModel, id: SnakeId, m: Move, mode: EvaluateMode)
    requires
        b.wf(),
        (id.0 as int) < b.healths.len(),
    ensures
        spec_table_entry_wf(spec_single_move_result(b, id, m, mode), b),
        spec_single_move_result(b, id, m, mode) matches SinglePlayerMoveResult::Alive(a) ==> a.id
            == id,
{
    let r = spec_single_move_result(b, id, m, mode);
    if r is Alive {
        let old_head = b.heads[id.0 as int];
        let head_cell = b.cells[old_head.0 as int];
        assert(old_head.0 < b.width * b.height);
        assert(head_cell.idx.0 < b.cells.len());
        let pos = old_head.spec_position(b.width);
        vstd::arithmetic::div_mod::lemma_fundamental_div_mod(old_head.0 as int, b.width as int);
        assert(0 <= pos.y) by {
            vstd::arithmetic::div_mod::lemma_div_is_ordered(0, old_head.0 as int, b.width as int);
        }
        assert(0 <= pos.x < b.width) by {
            vstd::arithmetic::div_mod::lemma_mod_bound(old_head.0 as int, b.width as int);
        }
        assert(pos.y * b.width + pos.x == old_head.0) by {
            assert((old_head.0 as int / b.width as int) * b.width == b.width * (old_head.0 as int
                / b.width as int)) by (nonlinear_arith);
        }
        assert(pos.y < b.height) by (nonlinear_arith)
            requires
                pos.y * b.width + pos.x == old_head.0,
                old_head.0 < b.width * b.height,
                0 <= pos.x,
                b.width >= 1,
                0 <= pos.y,
        ;
        let v = m.spec_to_vector();
        let np = Position { x: (pos.x + v.x) as i32, y: (pos.y + v.y) as i32 };
        let wp = if mode == EvaluateMode::Wrapped {
            b.spec_wrap(np)
        } else {
            np
        };
        assert(0 <= wp.x < b.width && 0 <= wp.y < b.height);
        assert(wp.y * b.width + wp.x < b.height * b.width) by (nonlinear_arith)
            requires
                0 <= wp.x < b.width,
                0 <= wp.y < b.height,
                b.width >= 1,
                b.height >= 1,
        ;
        assert(b.height * b.width == b.width * b.height) by (nonlinear_arith);
        assert(wp.y * b.width + wp.x >= 0) by (nonlinear_arith)
            requires
                0 <= wp.x,
                0 <= wp.y,
                b.width >= 1,
        ;
    }
}

/// The view of a per-agent move request list, each direction list as a
/// sequence.
pub open spec fn spec_moves_view(moves: Seq<(SnakeId, Vec<Move>)>) -> Seq<(SnakeId, Seq<Move>)> {
    moves.map(|i: int, p: (SnakeId, Vec<Move>)| (p.0, p.1@))
}

/// Whether direction `k` was requested for agent `id` before the walk of
/// the request list reaches pair `j`, move `l`.
pub open spec fn spec_requested(
    moves: Seq<(SnakeId, Seq<Move>)>,
    id: int,
    k: int,
    j: int,
    l: int,
) -> bool {
    exists|j2: int, l2: int|
        0 <= j2 < moves.len() && 0 <= l2 < moves[j2].1.len() && (j2 < j || (j2 == j && l2 < l)) && (
        (#[trigger] moves[j2].0).0 as int) == id && ((#[trigger] moves[j2].1[l2]).spec_index()
            as int) == k
}

impl CellBoard {
    /// One agent's move in one direction, evaluated in isolation.
    fn single_move_result(&self, id: SnakeId, m: Move, mode: EvaluateMode) -> (r:
        SinglePlayerMoveResult)
        requires
            self@.wf(),
            (id.0 as int) < self@.healths.len(),
        ensures
            r == spec_single_move_result(self@, id, m, mode),
    {
        proof {
            lemma_single_move_wf(self@, id, m, mode);
        }
        if self.get_health(&id) == 0 {
            return SinglePlayerMoveResult::Dead;
        }
        let old_head = self.get_head_as_native_position(&id);
        let head_cell = self.get_cell(old_head);
        let tail = head_cell.get_tail_position(old_head);
        match tail {
            None => SinglePlayerMoveResult::Dead,
            Some(old_tail) => {
                let pos = old_head.into_position(self.get_actual_width());
                proof {
                    let w = self@.width as int;
                    let h = self@.height as int;
                    assert(pos.y < h) by (nonlinear_arith)
                        requires
                            pos.y * w + pos.x == old_head.0,
                            old_head.0 < w * h,
                            0 <= pos.x,
                            w >= 1,
                            0 <= pos.y,
                    ;
                }
                let v = m.to_vector();
                let np = pos.add_vec(v);
                if matches!(mode, EvaluateMode::Standard) && self.off_board(np) {
                    return SinglePlayerMoveResult::Dead;
                }
                let new_head = match mode {
                    EvaluateMode::Wrapped => self.as_wrapped_cell_index(np),
                    EvaluateMode::Standard => {
                        proof {
                            let w = self@.width as int;
                            let h = self@.height as int;
                            assert(np.y * w + np.x < h * w) by (nonlinear_arith)
                                requires
                                    0 <= np.x < w,
                                    0 <= np.y < h,
                                    w >= 1,
                                    h >= 1,
                            ;
                            assert(h * w == w * h) by (nonlinear_arith);
                        }
                        CellIndex::new(np, self.get_actual_width())
                    },
                };
                let neck = self.neck_of(old_tail, old_head);
                if new_head == neck {
                    return SinglePlayerMoveResult::Dead;
                }
                let old_tail_cell = self.get_cell(old_tail);
                let new_tail_opt = if old_tail_cell.is_stacked() {
                    Some(old_tail)
                } else {
                    old_tail_cell.get_next_index()
                };
                match new_tail_opt {
                    None => SinglePlayerMoveResult::Dead,
                    Some(new_tail) => {
                        let h0 = self.get_health(&id);
                        let h1: u8 = h0 - 1;
                        let new_head_cell = self.get_cell(new_head);
                        let h2: u8 = if new_head_cell.is_hazard() {
                            if h1 >= self.get_hazard_damage() {
                                h1 - self.get_hazard_damage()
                            } else {
                                0
                            }
                        } else {
                            h1
                        };
                        let ate_food = new_head_cell.is_food();
                        let new_health: u8 = if ate_food {
                            100
                        } else {
                            h2
                        };
                        let l0 = self.get_length(id);
                        let new_length: u16 = if ate_food {
                            if l0 == u16::MAX {
                                l0
                            } else {
                                l0 + 1
                            }
                        } else {
                            l0
                        };
                        if new_health == 0 {
                            SinglePlayerMoveResult::Dead
                        } else {
                            SinglePlayerMoveResult::Alive(
                                AliveMoveResult {
                                    id,
                                    old_head,
                                    new_head,
                                    old_tail,
                                    new_tail,
                                    new_health,
                                    ate_food,
                                    new_length,
                                },
                            )
                        }
                    },
                }
            },
        }
    }

    /// The neck of the agent whose ring runs from `old_tail` to `old_head`.
    #[verifier::loop_isolation(false)]
    fn neck_of(&self, old_tail: CellIndex, old_head: CellIndex) -> (r: CellIndex)
        requires
            self@.wf(),
            old_tail.0 < self@.cells.len(),
            old_head.0 < self@.cells.len(),
        ensures
            r == spec_neck_walk(
                self@.cells,
                old_tail,
                old_tail,
                old_head,
                self@.cells.len(),
            ),
    {
        let mut curr = old_tail;
        let mut prev = old_tail;
        let mut fuel: usize = self.cells_len();
        while curr != old_head && fuel > 0
            invariant
                curr.0 < self@.cells.len(),
                prev.0 < self@.cells.len(),
                spec_neck_walk(self@.cells, old_tail, old_tail, old_head, self@.cells.len())
                    == spec_neck_walk(self@.cells, curr, prev, old_head, fuel as nat),
            decreases fuel,
        {
            let c = self.get_cell(curr);
            match c.get_next_index() {
                None => {
                    return curr;
                },
                Some(n) => {
                    prev = curr;
                    curr = n;
                },
            }
            fuel = fuel - 1;
        }
        prev
    }

    /// precomputes, for each requested agent and direction, the outcome of
    /// that single move in isolation: a dense table with four entries per
    /// agent, direction-minor, holding Dead wherever nothing was requested
    /// or the move dies on its own
    #[verifier::loop_isolation(false)]
    pub fn generate_state(&self, moves: &Vec<(SnakeId, Vec<Move>)>, mode: EvaluateMode) -> (r: Vec<
        SinglePlayerMoveResult,
    >)
        requires
            self@.wf(),
            forall|j: int|
                0 <= j < moves@.len() ==> ((#[trigger] moves@[j]).0.0 as int)
                    < self@.healths.len(),
        ensures
            r@.len() == 4 * self@.healths.len(),
            forall|id: int, k: int|
                0 <= id < self@.healths.len() && 0 <= k < 4 ==> #[trigger] r@[id * 4 + k] == (
                if spec_requested(
                    spec_moves_view(moves@),
                    id,
                    k,
                    moves@.len() as int,
                    0,
                ) {
                    spec_single_move_result(
                        self@,
                        SnakeId(id as u8),
                        Move::spec_from_index(k as usize),
                        mode,
                    )
                } else {
                    SinglePlayerMoveResult::Dead
                }),
            forall|t: int| 0 <= t < r@.len() ==> spec_table_entry_wf(#[trigger] r@[t], self@),
            r@ == spec_state_table(self@, spec_moves_view(moves@), mode),
    {
        let ghost mv = spec_moves_view(moves@);
        let max_snakes = self.iter_healths().len();
        let mut table: Vec<SinglePlayerMoveResult> = Vec::new();
        let mut i: usize = 0;
        while i < 4 * max_snakes
            invariant
                i <= 4 * max_snakes,
                table@.len() == i,
                forall|t: int| 0 <= t < i ==> table@[t] == SinglePlayerMoveResult::Dead,
            decreases 4 * max_snakes - i,
        {
            table.push(SinglePlayerMoveResult::Dead);
            i = i + 1;
        }
        let mut j: usize = 0;
        while j < moves.len()
            invariant
                j <= moves@.len(),
                table@.len() == 4 * self@.healths.len(),
                forall|id: int, k: int|
                    0 <= id < self@.healths.len() && 0 <= k < 4 ==> #[trigger] table@[id * 4 + k]
                        == (if spec_requested(mv, id, k, j as int, 0) {
                        spec_single_move_result(
                            self@,
                            SnakeId(id as u8),
                            Move::spec_from_index(k as usize),
                            mode,
                        )
                    } else {
                        SinglePlayerMoveResult::Dead
                    }),
            decreases moves@.len() - j,
        {
            let pair_id = moves[j].0;
            let n_mvs = moves[j].1.len();
            let mut l: usize = 0;
            while l < n_mvs
                invariant
                    l <= n_mvs,
                    n_mvs == mv[j as int].1.len(),
                    pair_id == mv[j as int].0,
                    j < moves@.len(),
                    table@.len() == 4 * self@.healths.len(),
                    forall|id: int, k: int|
                        0 <= id < self@.healths.len() && 0 <= k < 4 ==> #[trigger] table@[id * 4
                            + k] == (if spec_requested(mv, id, k, j as int, l as int) {
                            spec_single_move_result(
                                self@,
                                SnakeId(id as u8),
                                Move::spec_from_index(k as usize),
                                mode,
                            )
                        } else {
                            SinglePlayerMoveResult::Dead
                        }),
                decreases n_mvs - l,
            {
                let m = moves[j].1[l];
                let result = self.single_move_result(pair_id, m, mode);
                let kidx = m.as_index();
                let tidx = pair_id.0 as usize * 4 + kidx;
                let ghost old_table = table@;
                if !result.is_dead() {
                    table[tidx] = result;
                }
                proof {
                    let id0 = pair_id.0 as int;
                    let k0 = kidx as int;
                    assert(mv[j as int].1[l as int] == m);
                    assert forall|id: int, k: int|
                        0 <= id < self@.healths.len() && 0 <= k < 4 implies #[trigger] table@[id
                        * 4 + k] == (if spec_requested(mv, id, k, j as int, l + 1) {
                        spec_single_move_result(
                            self@,
                            SnakeId(id as u8),
                            Move::spec_from_index(k as usize),
                            mode,
                        )
                    } else {
                        SinglePlayerMoveResult::Dead
                    }) by {
                        if id == id0 && k == k0 {
                            assert(spec_requested(mv, id, k, j as int, l + 1)) by {
                                assert(0 <= (j as int) < mv.len() && 0 <= (l as int) < mv[
                                j as int].1.len() && ((mv[j as int].0).0 as int) == id && ((mv[
                                j as int].1[l as int]).spec_index() as int) == k);
                            }
                            assert(SnakeId(id as u8) == pair_id);
                            assert(Move::spec_from_index(k as usize) == m);
                            if result is Dead {
                                assert(table@[id * 4 + k] == old_table[id * 4 + k]);
                                if spec_requested(mv, id, k, j as int, l as int) {
                                } else {
                                }
                            } else {
                                assert(table@[id * 4 + k] == result);
                            }
                        } else {
                            assert(table@[id * 4 + k] == old_table[id * 4 + k]);
                            assert(spec_requested(mv, id, k, j as int, l + 1) == spec_requested(
                                mv,
                                id,
                                k,
                                j as int,
                                l as int,
                            )) by {
                                if spec_requested(mv, id, k, j as int, l + 1) {
                                    let (j2, l2) = choose|j2: int, l2: int|
                                        0 <= j2 < mv.len() && 0 <= l2 < mv[j2].1.len() && (j2 < j
                                            || (j2 == j && l2 < l + 1)) && ((
                                        #[trigger] mv[j2].0).0 as int) == id && ((
                                        #[trigger] mv[j2].1[l2]).spec_index() as int) == k;
                                    assert(!(j2 == j && l2 == l));
                                    assert(j2 < j || (j2 == j && l2 < l));
                                    assert(spec_requested(mv, id, k, j as int, l as int));
                                }
                            }
                        }
                    }
                }
                l = l + 1;
            }
            proof {
                assert forall|id: int, k: int|
                    0 <= id < self@.healths.len() && 0 <= k < 4 implies (spec_requested(
                    mv,
                    id,
                    k,
                    j + 1,
                    0,
                ) == spec_requested(mv, id, k, j as int, n_mvs as int)) by {
                    if spec_requested(mv, id, k, j + 1, 0) {
                        let (j2, l2) = choose|j2: int, l2: int|
                            0 <= j2 < mv.len() && 0 <= l2 < mv[j2].1.len() && (j2 < j + 1 || (j2
                                == j + 1 && l2 < 0)) && ((#[trigger] mv[j2].0).0 as int) == id && ((
                            #[trigger] mv[j2].1[l2]).spec_index() as int) == k;
                        assert(j2 < j || (j2 == j && l2 < n_mvs));
                        assert(spec_requested(mv, id, k, j as int, n_mvs as int));
                    }
                    if spec_requested(mv, id, k, j as int, n_mvs as int) {
                        let (j2, l2) = choose|j2: int, l2: int|
                            0 <= j2 < mv.len() && 0 <= l2 < mv[j2].1.len() && (j2 < j || (j2 == j
                                && l2 < n_mvs)) && ((#[trigger] mv[j2].0).0 as int) == id && ((
                            #[trigger] mv[j2].1[l2]).spec_index() as int) == k;
                        assert(j2 < j + 1);
                        assert(spec_requested(mv, id, k, j + 1, 0));
                    }
                }
            }
            j = j + 1;
        }
        proof {
            assert forall|t: int| 0 <= t < table@.len() implies spec_table_entry_wf(
                #[trigger] table@[t],
                self@,
            ) by {
                if table@[t] is Alive {
                    let id = t / 4;
                    let k = t % 4;
                    vstd::arithmetic::div_mod::lemma_fundamental_div_mod(t, 4);
                    vstd::arithmetic::div_mod::lemma_mod_bound(t, 4);
                    vstd::arithmetic::div_mod::lemma_div_is_ordered(0, t, 4);
                    assert(id * 4 + k == t);
                    assert(id < self@.healths.len()) by {
                        assert(table@.len() == 4 * self@.healths.len());
                        assert(t < 4 * self@.healths.len());
                        assert(id >= self@.healths.len() ==> t >= 4 * self@.healths.len())
                            by (nonlinear_arith)
                            requires
                                id == t / 4,
                                t >= 0,
                                4 * (t / 4) <= t,
                        ;
                    }
                    assert(table@[id * 4 + k] is Alive);
                    lemma_single_move_wf(
                        self@,
                        SnakeId(id as u8),
                        Move::spec_from_index(k as usize),
                        mode,
                    );
                }
            }
            assert forall|t: int| 0 <= t < table@.len() implies #[trigger] table@[t]
                == spec_state_table(self@, mv, mode)[t] by {
                let id = t / 4;
                let k = t % 4;
                vstd::arithmetic::div_mod::lemma_fundamental_div_mod(t, 4);
                vstd::arithmetic::div_mod::lemma_mod_bound(t, 4);
                vstd::arithmetic::div_mod::lemma_div_is_ordered(0, t, 4);
                assert(id * 4 + k == t);
                assert(id < self@.healths.len()) by {
                    assert(id >= self@.healths.len() ==> t >= 4 * self@.healths.len())
                        by (nonlinear_arith)
                        requires
                            id == t / 4,
                            t >= 0,
                            4 * (t / 4) <= t,
                    ;
                }
                assert(table@[id * 4 + k] == (if spec_requested(mv, id, k, moves@.len() as int, 0) {
                    spec_single_move_result(
                        self@,
                        SnakeId(id as u8),
                        Move::spec_from_index(k as usize),
                        mode,
                    )
                } else {
                    SinglePlayerMoveResult::Dead
                }));
            }
            assert(table@ =~= spec_state_table(self@, mv, mode));
        }
        table
    }
}


/// The table entry a request pair selects.
pub open spec fn spec_table_at(table: Seq<SinglePlayerMoveResult>, id_m: (SnakeId, Move)) -> SinglePlayerMoveResult {
    table[id_m.0.0 as int * 4 + id_m.1.spec_index() as int]
}

/// The alive result a request pair selects, if any.
pub open spec fn spec_alive_at(table: Seq<SinglePlayerMoveResult>, id_m: (SnakeId, Move)) -> Option<
    AliveMoveResult,
> {
    match spec_table_at(table, id_m) {
        SinglePlayerMoveResult::Alive(a) => Some(a),
        SinglePlayerMoveResult::Dead => None,
    }
}

/// The alive result of request `j` when its new head is `h`.
pub open spec fn spec_member(
    moves: Seq<(SnakeId, Move)>,
    table: Seq<SinglePlayerMoveResult>,
    h: CellIndex,
    j: int,
) -> Option<AliveMoveResult> {
    match spec_alive_at(table, moves[j]) {
        Some(a) => if a.new_head == h {
            Some(a)
        } else {
            None
        },
        None => None,
    }
}

/// Joint resolution, section one: each request applies its isolated move.
/// A first-phase death removes the agent; an alive move retracts the tail
/// (demoting a double stack in place, else clearing the tail and re-anchoring
/// the head cell to the new tail), writes the new health and length, and
/// doubles the new tail when food was eaten. New heads are not placed yet,
/// so that later deaths can still walk their victims' rings.
pub open spec fn spec_phase_a_step(
    b: BoardModel,
    id_m: (SnakeId, Move),
    table: Seq<SinglePlayerMoveResult>,
) -> BoardModel {
    match spec_table_at(table, id_m) {
        SinglePlayerMoveResult::Dead => BoardModel::spec_kill_and_remove(b, id_m.0),
        SinglePlayerMoveResult::Alive(a) => {
            let old_tail_cell = b.cells[a.old_tail.0 as int];
            let b1 = if old_tail_cell.kind == CellKind::DoubleStacked {
                BoardModel {
                    cells: b.cells.update(
                        a.old_tail.0 as int,
                        Cell {
                            kind: CellKind::BodyPiece,
                            hazard: old_tail_cell.hazard,
                            id: a.id,
                            idx: old_tail_cell.idx,
                        },
                    ),
                    ..b
                }
            } else {
                let c1 = b.cells.update(
                    a.old_tail.0 as int,
                    BoardModel::spec_cleared(old_tail_cell),
                );
                let c2 = c1.update(
                    a.old_head.0 as int,
                    Cell {
                        kind: CellKind::Head,
                        hazard: c1[a.old_head.0 as int].hazard,
                        id: a.id,
                        idx: a.new_tail,
                    },
                );
                BoardModel { cells: c2, ..b }
            };
            let b2 = BoardModel {
                healths: b1.healths.update(a.id.0 as int, a.new_health),
                lengths: b1.lengths.update(a.id.0 as int, a.new_length),
                ..b1
            };
            if a.ate_food {
                BoardModel {
                    cells: b2.cells.update(
                        a.new_tail.0 as int,
                        Cell {
                            kind: CellKind::DoubleStacked,
                            hazard: b2.cells[a.new_tail.0 as int].hazard,
                            id: a.id,
                            idx: b2.cells[a.new_tail.0 as int].idx,
                        },
                    ),
                    ..b2
                }
            } else {
                b2
            }
        },
    }
}

/// Section one applied to the first `n` requests in order.
pub open spec fn spec_phase_a(
    b: BoardModel,
    moves: Seq<(SnakeId, Move)>,
    table: Seq<SinglePlayerMoveResult>,
    n: int,
) -> BoardModel
    decreases n,
{
    if n <= 0 {
        b
    } else {
        spec_phase_a_step(spec_phase_a(b, moves, table, n - 1), moves[n - 1], table)
    }
}

/// Joint resolution, section two: an alive agent whose new head lands on
/// any body segment or head of the retracted board is marked to die.
pub open spec fn spec_phase_b_step(
    b: BoardModel,
    tk: Seq<bool>,
    id_m: (SnakeId, Move),
    table: Seq<SinglePlayerMoveResult>,
) -> Seq<bool> {
    match spec_alive_at(table, id_m) {
        Some(a) => {
            let c = b.cells[a.new_head.0 as int];
            if c.spec_is_body_segment() || c.spec_is_head() {
                tk.update(a.id.0 as int, true)
            } else {
                tk
            }
        },
        None => tk,
    }
}

/// Section two applied to the first `n` requests.
pub open spec fn spec_phase_b(
    b: BoardModel,
    moves: Seq<(SnakeId, Move)>,
    table: Seq<SinglePlayerMoveResult>,
    n: int,
) -> Seq<bool>
    decreases n,
{
    if n <= 0 {
        Seq::new(b.healths.len(), |i: int| false)
    } else {
        spec_phase_b_step(b, spec_phase_b(b, moves, table, n - 1), moves[n - 1], table)
    }
}

/// Whether some earlier request (index below `j`) is alive with this new head.
pub open spec fn spec_earlier_same_head(
    moves: Seq<(SnakeId, Move)>,
    table: Seq<SinglePlayerMoveResult>,
    h: CellIndex,
    j: int,
) -> bool {
    exists|j2: int| 0 <= j2 < j && (#[trigger] spec_member(moves, table, h, j2)) is Some
}

/// How many of the first `n` requests are alive with this new head.
pub open spec fn spec_group_count(
    moves: Seq<(SnakeId, Move)>,
    table: Seq<SinglePlayerMoveResult>,
    h: CellIndex,
    n: int,
) -> int
    decreases n,
{
    if n <= 0 {
        0
    } else {
        spec_group_count(moves, table, h, n - 1) + (if spec_member(moves, table, h, n - 1)
            is Some {
            1int
        } else {
            0int
        })
    }
}

/// The greatest current length among the group sharing this new head,
/// scanning the first `n` requests; zero when the group is empty.
pub open spec fn spec_group_max_len(
    bd: BoardModel,
    moves: Seq<(SnakeId, Move)>,
    table: Seq<SinglePlayerMoveResult>,
    h: CellIndex,
    n: int,
) -> int
    decreases n,
{
    if n <= 0 {
        0
    } else {
        let rest = spec_group_max_len(bd, moves, table, h, n - 1);
        match spec_member(moves, table, h, n - 1) {
            Some(a) => if bd.lengths[a.id.0 as int] > rest {
                bd.lengths[a.id.0 as int] as int
            } else {
                rest
            },
            None => rest,
        }
    }
}

/// How many group members have exactly the given length.
pub open spec fn spec_group_count_at_max(
    bd: BoardModel,
    moves: Seq<(SnakeId, Move)>,
    table: Seq<SinglePlayerMoveResult>,
    h: CellIndex,
    maxlen: int,
    n: int,
) -> int
    decreases n,
{
    if n <= 0 {
        0
    } else {
        spec_group_count_at_max(bd, moves, table, h, maxlen, n - 1) + (match spec_member(
            moves,
            table,
            h,
            n - 1,
        ) {
            Some(a) => if bd.lengths[a.id.0 as int] == maxlen {
                1int
            } else {
                0int
            },
            None => 0int,
        })
    }
}

/// Whether some group member is the given agent.
pub open spec fn spec_group_contains_id(
    moves: Seq<(SnakeId, Move)>,
    table: Seq<SinglePlayerMoveResult>,
    h: CellIndex,
    sid: SnakeId,
    n: int,
) -> bool
    decreases n,
{
    if n <= 0 {
        false
    } else {
        spec_group_contains_id(moves, table, h, sid, n - 1) || (match spec_member(
            moves,
            table,
            h,
            n - 1,
        ) {
            Some(a) => a.id == sid,
            None => false,
        })
    }
}

/// The first group member with exactly the given length.
pub open spec fn spec_first_at_max(
    bd: BoardModel,
    moves: Seq<(SnakeId, Move)>,
    table: Seq<SinglePlayerMoveResult>,
    h: CellIndex,
    maxlen: int,
    n: int,
) -> Option<SnakeId>
    decreases n,
{
    if n <= 0 {
        None
    } else {
        match spec_first_at_max(bd, moves, table, h, maxlen, n - 1) {
            Some(w) => Some(w),
            None => match spec_member(moves, table, h, n - 1) {
                Some(a) => if bd.lengths[a.id.0 as int] == maxlen {
                    Some(a.id)
                } else {
                    None
                },
                None => None,
            },
        }
    }
}

/// Every group member that is not the winner is marked to die.
pub open spec fn spec_mark_losers(
    tk: Seq<bool>,
    moves: Seq<(SnakeId, Move)>,
    table: Seq<SinglePlayerMoveResult>,
    h: CellIndex,
    winner: Option<SnakeId>,
    n: int,
) -> Seq<bool>
    decreases n,
{
    if n <= 0 {
        tk
    } else {
        let prev = spec_mark_losers(tk, moves, table, h, winner, n - 1);
        match spec_member(moves, table, h, n - 1) {
            Some(a) => if winner != Some(a.id) {
                prev.update(a.id.0 as int, true)
            } else {
                prev
            },
            None => prev,
        }
    }
}

/// Joint resolution, section three, for the request at index `j`: the first
/// alive request of each shared new head resolves its head-to-head group.
/// With two or more members, the unique longest member wins unless the
/// shared square is a third party's body (possible only under toroidal
/// geometry), in which case everyone dies and the third party's body is
/// left intact; without a winner on a free square, the square is cleared.
pub open spec fn spec_phase_c_step(
    bd: BoardModel,
    tk: Seq<bool>,
    moves: Seq<(SnakeId, Move)>,
    table: Seq<SinglePlayerMoveResult>,
    j: int,
) -> (BoardModel, Seq<bool>) {
    match spec_alive_at(table, moves[j]) {
        None => (bd, tk),
        Some(a) => {
            if spec_earlier_same_head(moves, table, a.new_head, j) {
                (bd, tk)
            } else if spec_group_count(moves, table, a.new_head, moves.len() as int) < 2 {
                (bd, tk)
            } else {
                let maxlen = spec_group_max_len(bd, moves, table, a.new_head, moves.len() as int);
                let n_at_max = spec_group_count_at_max(
                    bd,
                    moves,
                    table,
                    a.new_head,
                    maxlen,
                    moves.len() as int,
                );
                let cell = bd.cells[a.new_head.0 as int];
                let third = cell.spec_is_body_segment() && !cell.spec_is_head()
                    && !spec_group_contains_id(
                    moves,
                    table,
                    a.new_head,
                    cell.id,
                    moves.len() as int,
                );
                let winner = if n_at_max != 1 || third {
                    None
                } else {
                    spec_first_at_max(bd, moves, table, a.new_head, maxlen, moves.len() as int)
                };
                let tk2 = spec_mark_losers(
                    tk,
                    moves,
                    table,
                    a.new_head,
                    winner,
                    moves.len() as int,
                );
                let bd2 = if winner is None && !third {
                    BoardModel {
                        cells: bd.cells.update(a.new_head.0 as int, BoardModel::spec_cleared(cell)),
                        ..bd
                    }
                } else {
                    bd
                };
                (bd2, tk2)
            }
        },
    }
}

/// Section three applied to the first `n` requests.
pub open spec fn spec_phase_c(
    bd: BoardModel,
    tk: Seq<bool>,
    moves: Seq<(SnakeId, Move)>,
    table: Seq<SinglePlayerMoveResult>,
    n: int,
) -> (BoardModel, Seq<bool>)
    decreases n,
{
    if n <= 0 {
        (bd, tk)
    } else {
        let prev = spec_phase_c(bd, tk, moves, table, n - 1);
        spec_phase_c_step(prev.0, prev.1, moves, table, n - 1)
    }
}

/// Joint resolution, section four: marked agents are removed; every other
/// alive agent commits its move, placing the head cell (linked to the new
/// tail) and demoting the old head cell to a body piece, or from a triple
/// to a double stack, linked toward the new head.
pub open spec fn spec_phase_d_step(
    bd: BoardModel,
    orig: BoardModel,
    tk: Seq<bool>,
    id_m: (SnakeId, Move),
    table: Seq<SinglePlayerMoveResult>,
) -> BoardModel {
    match spec_alive_at(table, id_m) {
        None => bd,
        Some(a) => {
            if tk[a.id.0 as int] {
                BoardModel::spec_kill_and_remove(bd, a.id)
            } else {
                let b1 = BoardModel { heads: bd.heads.update(a.id.0 as int, a.new_head), ..bd };
                let c1 = b1.cells.update(
                    a.new_head.0 as int,
                    Cell {
                        kind: CellKind::Head,
                        hazard: b1.cells[a.new_head.0 as int].hazard,
                        id: a.id,
                        idx: a.new_tail,
                    },
                );
                let old_head_cell = orig.cells[a.old_head.0 as int];
                let c2 = if old_head_cell.kind == CellKind::TripleStacked {
                    c1.update(
                        a.old_head.0 as int,
                        Cell {
                            kind: CellKind::DoubleStacked,
                            hazard: c1[a.old_head.0 as int].hazard,
                            id: a.id,
                            idx: a.new_head,
                        },
                    )
                } else {
                    c1.update(
                        a.old_head.0 as int,
                        Cell {
                            kind: CellKind::BodyPiece,
                            hazard: c1[a.old_head.0 as int].hazard,
                            id: a.id,
                            idx: a.new_head,
                        },
                    )
                };
                BoardModel { cells: c2, ..b1 }
            }
        },
    }
}

/// Section four applied to the first `n` requests.
pub open spec fn spec_phase_d(
    bd: BoardModel,
    orig: BoardModel,
    tk: Seq<bool>,
    moves: Seq<(SnakeId, Move)>,
    table: Seq<SinglePlayerMoveResult>,
    n: int,
) -> BoardModel
    decreases n,
{
    if n <= 0 {
        bd
    } else {
        spec_phase_d_step(
            spec_phase_d(bd, orig, tk, moves, table, n - 1),
            orig,
            tk,
            moves[n - 1],
            table,
        )
    }
}

/// The whole joint resolution: retract and apply isolated moves, mark body
/// collisions, resolve head-to-head groups, then commit the survivors.
pub open spec fn spec_evaluate(
    orig: BoardModel,
    moves: Seq<(SnakeId, Move)>,
    table: Seq<SinglePlayerMoveResult>,
) -> BoardModel {
    let after_a = spec_phase_a(orig, moves, table, moves.len() as int);
    let tk0 = spec_phase_b(after_a, moves, table, moves.len() as int);
    let ct = spec_phase_c(after_a, tk0, moves, table, moves.len() as int);
    spec_phase_d(ct.0, orig, ct.1, moves, table, moves.len() as int)
}

/// The whole precomputed table as one value: entry `id * 4 + k` holds what
/// agent `id` moving in direction `k` does in isolation, when requested.
pub open spec fn spec_state_table(
    b: BoardModel,
    mv: Seq<(SnakeId, Seq<Move>)>,
    mode: EvaluateMode,
) -> Seq<SinglePlayerMoveResult> {
    Seq::new(
        (4 * b.healths.len()) as nat,
        |t: int|
            {
                let id = t / 4;
                let k = t % 4;
                if spec_requested(mv, id, k, mv.len() as int, 0) {
                    spec_single_move_result(
                        b,
                        SnakeId(id as u8),
                        Move::spec_from_index(k as usize),
                        mode,
                    )
                } else {
                    SinglePlayerMoveResult::Dead
                }
            },
    )
}

/// What evaluating requires of its inputs: a table of four entries per
/// agent whose alive entries stay within the board, and request ids within
/// the agent capacity.
pub open spec fn spec_eval_inputs_ok(
    b: BoardModel,
    moves: Seq<(SnakeId, Move)>,
    table: Seq<SinglePlayerMoveResult>,
) -> bool {
    &&& table.len() == 4 * b.healths.len()
    &&& forall|t: int| 0 <= t < table.len() ==> spec_table_entry_wf(#[trigger] table[t], b)
    &&& forall|j: int| 0 <= j < moves.len() ==> ((#[trigger] moves[j]).0.0 as int) < b.healths.len()
}


/// whether some earlier request is alive with this new head
#[verifier::loop_isolation(false)]
fn earlier_same_head(
    moves: &Vec<(SnakeId, Move)>,
    table: &Vec<SinglePlayerMoveResult>,
    h: CellIndex,
    j: usize,
) -> (r: bool)
    requires
        j <= moves@.len(),
        forall|j2: int|
            0 <= j2 < moves@.len() ==> 0 <= (#[trigger] moves@[j2]).0.0 as int * 4
                + moves@[j2].1.spec_index() < table@.len(),
    ensures
        r == spec_earlier_same_head(moves@, table@, h, j as int),
{
    let mut j2: usize = 0;
    while j2 < j
        invariant
            j2 <= j,
            !spec_earlier_same_head(moves@, table@, h, j2 as int),
        decreases j - j2,
    {
        let (sid, m) = moves[j2];
        let e = table[sid.0 as usize * 4 + m.as_index()];
        match e {
            SinglePlayerMoveResult::Alive(a) => {
                if a.new_head == h {
                    proof {
                        assert(spec_member(moves@, table@, h, j2 as int) is Some);
                        assert(spec_earlier_same_head(moves@, table@, h, j as int));
                    }
                    return true;
                }
            },
            SinglePlayerMoveResult::Dead => {},
        }
        proof {
            assert forall|jj: int| 0 <= jj < j2 + 1 implies !((#[trigger] spec_member(
                moves@,
                table@,
                h,
                jj,
            )) is Some) by {
                if jj < j2 {
                    assert(!spec_earlier_same_head(moves@, table@, h, j2 as int));
                }
            }
        }
        j2 = j2 + 1;
    }
    false
}

/// how many requests are alive with this new head
#[verifier::loop_isolation(false)]
fn group_count(
    moves: &Vec<(SnakeId, Move)>,
    table: &Vec<SinglePlayerMoveResult>,
    h: CellIndex,
) -> (r: usize)
    requires
        forall|j2: int|
            0 <= j2 < moves@.len() ==> 0 <= (#[trigger] moves@[j2]).0.0 as int * 4
                + moves@[j2].1.spec_index() < table@.len(),
    ensures
        r == spec_group_count(moves@, table@, h, moves@.len() as int),
{
    let mut count: usize = 0;
    let mut j2: usize = 0;
    while j2 < moves.len()
        invariant
            j2 <= moves@.len(),
            count == spec_group_count(moves@, table@, h, j2 as int),
            count <= j2,
        decreases moves@.len() - j2,
    {
        let (sid, m) = moves[j2];
        let e = table[sid.0 as usize * 4 + m.as_index()];
        match e {
            SinglePlayerMoveResult::Alive(a) => {
                if a.new_head == h {
                    count = count + 1;
                }
            },
            SinglePlayerMoveResult::Dead => {},
        }
        j2 = j2 + 1;
    }
    count
}

/// whether some request alive with this new head belongs to the given agent
#[verifier::loop_isolation(false)]
fn group_contains_id(
    moves: &Vec<(SnakeId, Move)>,
    table: &Vec<SinglePlayerMoveResult>,
    h: CellIndex,
    sid: SnakeId,
) -> (r: bool)
    requires
        forall|j2: int|
            0 <= j2 < moves@.len() ==> 0 <= (#[trigger] moves@[j2]).0.0 as int * 4
                + moves@[j2].1.spec_index() < table@.len(),
    ensures
        r == spec_group_contains_id(moves@, table@, h, sid, moves@.len() as int),
{
    let mut found = false;
    let mut j2: usize = 0;
    while j2 < moves.len()
        invariant
            j2 <= moves@.len(),
            found == spec_group_contains_id(moves@, table@, h, sid, j2 as int),
        decreases moves@.len() - j2,
    {
        let (mid, m) = moves[j2];
        let e = table[mid.0 as usize * 4 + m.as_index()];
        match e {
            SinglePlayerMoveResult::Alive(a) => {
                if a.new_head == h && a.id.0 == sid.0 {
                    found = true;
                }
            },
            SinglePlayerMoveResult::Dead => {},
        }
        j2 = j2 + 1;
    }
    found
}

impl CellBoard {
    /// the greatest current length among the group sharing this new head
    #[verifier::loop_isolation(false)]
    fn group_max_len(
        &self,
        moves: &Vec<(SnakeId, Move)>,
        table: &Vec<SinglePlayerMoveResult>,
        h: CellIndex,
    ) -> (r: u16)
        requires
            forall|j2: int|
                0 <= j2 < moves@.len() ==> 0 <= (#[trigger] moves@[j2]).0.0 as int * 4
                    + moves@[j2].1.spec_index() < table@.len(),
            forall|t: int| 0 <= t < table@.len() ==> spec_table_entry_wf(#[trigger] table@[t], self@),
            self@.lengths.len() == self@.healths.len(),
        ensures
            r as int == spec_group_max_len(self@, moves@, table@, h, moves@.len() as int),
    {
        let mut max_len: u16 = 0;
        let mut j2: usize = 0;
        while j2 < moves.len()
            invariant
                j2 <= moves@.len(),
                max_len as int == spec_group_max_len(self@, moves@, table@, h, j2 as int),
            decreases moves@.len() - j2,
        {
            let (mid, m) = moves[j2];
            let e = table[mid.0 as usize * 4 + m.as_index()];
            match e {
                SinglePlayerMoveResult::Alive(a) => {
                    if a.new_head == h {
                        let l = self.get_length(a.id);
                        if l > max_len {
                            max_len = l;
                        }
                    }
                },
                SinglePlayerMoveResult::Dead => {},
            }
            j2 = j2 + 1;
        }
        max_len
    }

    /// how many group members have exactly the given length
    #[verifier::loop_isolation(false)]
    fn count_at_max(
        &self,
        moves: &Vec<(SnakeId, Move)>,
        table: &Vec<SinglePlayerMoveResult>,
        h: CellIndex,
        maxlen: u16,
    ) -> (r: usize)
        requires
            forall|j2: int|
                0 <= j2 < moves@.len() ==> 0 <= (#[trigger] moves@[j2]).0.0 as int * 4
                    + moves@[j2].1.spec_index() < table@.len(),
            forall|t: int| 0 <= t < table@.len() ==> spec_table_entry_wf(#[trigger] table@[t], self@),
            self@.lengths.len() == self@.healths.len(),
        ensures
            r == spec_group_count_at_max(self@, moves@, table@, h, maxlen as int, moves@.len() as int),
    {
        let mut count: usize = 0;
        let mut j2: usize = 0;
        while j2 < moves.len()
            invariant
                j2 <= moves@.len(),
                count == spec_group_count_at_max(self@, moves@, table@, h, maxlen as int, j2 as int),
                count <= j2,
            decreases moves@.len() - j2,
        {
            let (mid, m) = moves[j2];
            let e = table[mid.0 as usize * 4 + m.as_index()];
            match e {
                SinglePlayerMoveResult::Alive(a) => {
                    if a.new_head == h && self.get_length(a.id) == maxlen {
                        count = count + 1;
                    }
                },
                SinglePlayerMoveResult::Dead => {},
            }
            j2 = j2 + 1;
        }
        count
    }

    /// the first group member with exactly the given length
    #[verifier::loop_isolation(false)]
    fn first_at_max(
        &self,
        moves: &Vec<(SnakeId, Move)>,
        table: &Vec<SinglePlayerMoveResult>,
        h: CellIndex,
        maxlen: u16,
    ) -> (r: Option<SnakeId>)
        requires
            forall|j2: int|
                0 <= j2 < moves@.len() ==> 0 <= (#[trigger] moves@[j2]).0.0 as int * 4
                    + moves@[j2].1.spec_index() < table@.len(),
            forall|t: int| 0 <= t < table@.len() ==> spec_table_entry_wf(#[trigger] table@[t], self@),
            self@.lengths.len() == self@.healths.len(),
        ensures
            r == spec_first_at_max(self@, moves@, table@, h, maxlen as int, moves@.len() as int),
    {
        let mut winner: Option<SnakeId> = None;
        let mut j2: usize = 0;
        while j2 < moves.len()
            invariant
                j2 <= moves@.len(),
                winner == spec_first_at_max(self@, moves@, table@, h, maxlen as int, j2 as int),
            decreases moves@.len() - j2,
        {
            let (mid, m) = moves[j2];
            let e = table[mid.0 as usize * 4 + m.as_index()];
            match e {
                SinglePlayerMoveResult::Alive(a) => {
                    if winner.is_none() && a.new_head == h && self.get_length(a.id) == maxlen {
                        winner = Some(a.id);
                    }
                },
                SinglePlayerMoveResult::Dead => {},
            }
            j2 = j2 + 1;
        }
        winner
    }
}

/// mark every group member that is not the winner to die
#[verifier::loop_isolation(false)]
fn mark_losers(
    tk: &mut Vec<bool>,
    moves: &Vec<(SnakeId, Move)>,
    table: &Vec<SinglePlayerMoveResult>,
    h: CellIndex,
    winner: Option<SnakeId>,
    Ghost(b): Ghost<BoardModel>,
)
    requires
        old(tk)@.len() == b.healths.len(),
        forall|j2: int|
            0 <= j2 < moves@.len() ==> 0 <= (#[trigger] moves@[j2]).0.0 as int * 4
                + moves@[j2].1.spec_index() < table@.len(),
        forall|t: int| 0 <= t < table@.len() ==> spec_table_entry_wf(#[trigger] table@[t], b),
    ensures
        final(tk)@ == spec_mark_losers(old(tk)@, moves@, table@, h, winner, moves@.len() as int),
        final(tk)@.len() == old(tk)@.len(),
{
    let mut j2: usize = 0;
    while j2 < moves.len()
        invariant
            j2 <= moves@.len(),
            tk@ == spec_mark_losers(old(tk)@, moves@, table@, h, winner, j2 as int),
            tk@.len() == b.healths.len(),
        decreases moves@.len() - j2,
    {
        let (mid, m) = moves[j2];
        let e = table[mid.0 as usize * 4 + m.as_index()];
        match e {
            SinglePlayerMoveResult::Alive(a) => {
                if a.new_head == h {
                    let is_winner = match winner {
                        Some(w) => w.0 == a.id.0,
                        None => false,
                    };
                    if !is_winner {
                        tk[a.id.0 as usize] = true;
                    }
                }
            },
            SinglePlayerMoveResult::Dead => {},
        }
        j2 = j2 + 1;
    }
}


impl CellBoard {
    /// evaluates one joint move against the precomputed table: returns the
    /// successor board, resolving tail retraction, growth, body collisions
    /// and head-to-head groups exactly as the four resolution sections of
    /// [spec_evaluate] state
    #[verifier::loop_isolation(false)]
    #[verifier::rlimit(60)]
    pub fn evaluate_moves_with_state(
        &self,
        moves: &Vec<(SnakeId, Move)>,
        new_heads: &Vec<SinglePlayerMoveResult>,
    ) -> (r: CellBoard)
        requires
            self@.wf(),
            spec_eval_inputs_ok(self@, moves@, new_heads@),
        ensures
            r@ == spec_evaluate(self@, moves@, new_heads@),
            r@.wf(),
    {
        let ghost orig = self@;
        let mut new = self.clone();

        // apply each agent's isolated move; new heads wait until the end
        let mut i: usize = 0;
        while i < moves.len()
            invariant
                i <= moves@.len(),
                new@ == spec_phase_a(orig, moves@, new_heads@, i as int),
                new@.wf(),
                new@.cells.len() == orig.cells.len(),
                new@.healths.len() == orig.healths.len(),
                new@.lengths.len() == orig.lengths.len(),
                new@.heads.len() == orig.heads.len(),
                new@.width == orig.width,
                new@.height == orig.height,
            decreases moves@.len() - i,
        {
            let (id, m) = moves[i];
            let result = new_heads[id.0 as usize * 4 + m.as_index()];
            let ghost prev = new@;
            match result {
                SinglePlayerMoveResult::Alive(a) => {
                    let old_tail_cell = new.get_cell(a.old_tail);
                    if old_tail_cell.is_double_stacked_piece() {
                        new.set_cell_body_piece(a.old_tail, a.id, old_tail_cell.get_idx());
                    } else {
                        new.cell_remove(a.old_tail);
                        new.set_cell_head(a.old_head, a.id, a.new_tail);
                    }
                    new.set_health_slot(a.id, a.new_health);
                    new.set_length_slot(a.id, a.new_length);
                    if a.ate_food {
                        let new_tail_cell = new.get_cell(a.new_tail);
                        new.set_cell_double_stacked(a.new_tail, a.id, new_tail_cell.get_idx());
                    }
                    proof {
                        assert(new@ =~= spec_phase_a_step(prev, moves@[i as int], new_heads@));
                    }
                },
                SinglePlayerMoveResult::Dead => {
                    new.kill_and_remove(id);
                    proof {
                        assert(new@ =~= spec_phase_a_step(prev, moves@[i as int], new_heads@));
                    }
                },
            }
            i = i + 1;
        }
        let ghost after_a = new@;

        // mark everyone whose new head lands on a body segment or a head
        let max_snakes = self.iter_healths().len();
        let mut to_kill: Vec<bool> = Vec::new();
        let mut i: usize = 0;
        while i < max_snakes
            invariant
                i <= max_snakes,
                to_kill@.len() == i,
                forall|k: int| 0 <= k < i ==> !(#[trigger] to_kill@[k]),
            decreases max_snakes - i,
        {
            to_kill.push(false);
            i = i + 1;
        }
        proof {
            assert(to_kill@ =~= spec_phase_b(after_a, moves@, new_heads@, 0));
        }
        let mut i: usize = 0;
        while i < moves.len()
            invariant
                i <= moves@.len(),
                new@ == after_a,
                to_kill@ == spec_phase_b(after_a, moves@, new_heads@, i as int),
                to_kill@.len() == orig.healths.len(),
            decreases moves@.len() - i,
        {
            let (id, m) = moves[i];
            let result = new_heads[id.0 as usize * 4 + m.as_index()];
            match result {
                SinglePlayerMoveResult::Alive(a) => {
                    let new_head_cell = new.get_cell(a.new_head);
                    if new_head_cell.is_body_segment() || new_head_cell.is_head() {
                        to_kill[a.id.0 as usize] = true;
                    }
                },
                SinglePlayerMoveResult::Dead => {},
            }
            i = i + 1;
        }
        let ghost tk0 = to_kill@;

        // resolve each head-to-head group once, at its first member
        let mut i: usize = 0;
        while i < moves.len()
            invariant
                i <= moves@.len(),
                (new@, to_kill@) == spec_phase_c(after_a, tk0, moves@, new_heads@, i as int),
                to_kill@.len() == orig.healths.len(),
                new@.wf(),
                new@.cells.len() == orig.cells.len(),
                new@.healths.len() == orig.healths.len(),
                new@.lengths.len() == orig.lengths.len(),
                new@.heads.len() == orig.heads.len(),
                new@.width == orig.width,
                new@.height == orig.height,
            decreases moves@.len() - i,
        {
            let (id, m) = moves[i];
            let result = new_heads[id.0 as usize * 4 + m.as_index()];
            let ghost prev_b = new@;
            let ghost prev_tk = to_kill@;
            match result {
                SinglePlayerMoveResult::Alive(a) => {
                    if !earlier_same_head(moves, new_heads, a.new_head, i) {
                        let cnt = group_count(moves, new_heads, a.new_head);
                        if cnt >= 2 {
                            let maxlen = new.group_max_len(moves, new_heads, a.new_head);
                            let n_at_max = new.count_at_max(moves, new_heads, a.new_head, maxlen);
                            let cell = new.get_cell(a.new_head);
                            let third = if cell.is_body_segment() && !cell.is_head() {
                                let cid = match cell.get_snake_id() {
                                    Some(c) => c,
                                    None => SnakeId(0),
                                };
                                proof {
                                    assert(cid == cell.id);
                                }
                                !group_contains_id(moves, new_heads, a.new_head, cid)
                            } else {
                                false
                            };
                            let winner: Option<SnakeId> = if n_at_max != 1 || third {
                                None
                            } else {
                                new.first_at_max(moves, new_heads, a.new_head, maxlen)
                            };
                            mark_losers(
                                &mut to_kill,
                                moves,
                                new_heads,
                                a.new_head,
                                winner,
                                Ghost(new@),
                            );
                            if winner.is_none() && !third {
                                new.cell_remove(a.new_head);
                            }
                        }
                    }
                },
                SinglePlayerMoveResult::Dead => {},
            }
            proof {
                assert((new@, to_kill@) =~= spec_phase_c_step(
                    prev_b,
                    prev_tk,
                    moves@,
                    new_heads@,
                    i as int,
                ));
            }
            i = i + 1;
        }
        let ghost after_c = new@;
        let ghost tk = to_kill@;

        // commit the survivors and remove the marked
        let mut i: usize = 0;
        while i < moves.len()
            invariant
                i <= moves@.len(),
                new@ == spec_phase_d(after_c, orig, tk, moves@, new_heads@, i as int),
                new@.wf(),
                new@.cells.len() == orig.cells.len(),
                new@.healths.len() == orig.healths.len(),
                new@.lengths.len() == orig.lengths.len(),
                new@.heads.len() == orig.heads.len(),
                new@.width == orig.width,
                new@.height == orig.height,
            decreases moves@.len() - i,
        {
            let (id, m) = moves[i];
            let result = new_heads[id.0 as usize * 4 + m.as_index()];
            let ghost prev_b = new@;
            match result {
                SinglePlayerMoveResult::Alive(a) => {
                    if to_kill[a.id.0 as usize] {
                        new.kill_and_remove(a.id);
                    } else {
                        new.set_head_slot(a.id, a.new_head);
                        new.set_cell_head(a.new_head, a.id, a.new_tail);
                        let old_head_cell = self.get_cell(a.old_head);
                        if old_head_cell.is_triple_stacked_piece() {
                            new.set_cell_double_stacked(a.old_head, a.id, a.new_head);
                        } else {
                            new.set_cell_body_piece(a.old_head, a.id, a.new_head);
                        }
                    }
                    proof {
                        assert(new@ =~= spec_phase_d_step(
                            prev_b,
                            orig,
                            tk,
                            moves@[i as int],
                            new_heads@,
                        ));
                    }
                },
                SinglePlayerMoveResult::Dead => {},
            }
            i = i + 1;
        }
        new
    }
}


/// The square a move lands on, after geometry: None when the step leaves
/// a bounded board.
pub open spec fn spec_move_target(b: BoardModel, id: SnakeId, m: Move, mode: EvaluateMode) -> Option<
    CellIndex,
> {
    let old_head = b.heads[id.0 as int];
    let pos = old_head.spec_position(b.width);
    let v = m.spec_to_vector();
    let np = Position { x: (pos.x + v.x) as i32, y: (pos.y + v.y) as i32 };
    if mode == EvaluateMode::Standard && b.spec_off_board(np) {
        None
    } else {
        let wp = if mode == EvaluateMode::Wrapped {
            b.spec_wrap(np)
        } else {
            np
        };
        Some(CellIndex((wp.y * b.width + wp.x) as u16))
    }
}

/// Starvation: an agent at health one whose move lands on a square that
/// holds no food and no hazard mark dies in isolation, whatever else the
/// move does.
pub proof fn lemma_starving_move_dies(b: BoardModel, id: SnakeId, m: Move, mode: EvaluateMode)
    requires
        b.healths[id.0 as int] == 1,
        spec_move_target(b, id, m, mode) matches Some(nh) ==> {
            &&& b.cells[nh.0 as int].kind != CellKind::Food
            &&& !b.cells[nh.0 as int].hazard
        },
    ensures
        spec_single_move_result(b, id, m, mode) is Dead,
{
}

/// Food: a move landing on a food square, when it survives at all, eats:
/// full health, one more segment (saturating at the length type's top),
/// and the tail kept in place on a stacked tail square, advanced one link
/// otherwise.
pub proof fn lemma_eating_move_feeds(b: BoardModel, id: SnakeId, m: Move, mode: EvaluateMode)
    requires
        spec_move_target(b, id, m, mode) matches Some(nh) ==> b.cells[nh.0 as int].kind
            == CellKind::Food,
    ensures
        spec_single_move_result(b, id, m, mode) matches SinglePlayerMoveResult::Alive(a) ==> {
            let old_tail_cell = b.cells[a.old_tail.0 as int];
            &&& a.ate_food
            &&& a.new_health == 100
            &&& a.new_length == (if b.lengths[id.0 as int] == u16::MAX {
                u16::MAX
            } else {
                (b.lengths[id.0 as int] + 1) as u16
            })
            &&& (old_tail_cell.kind == CellKind::DoubleStacked || old_tail_cell.kind
                == CellKind::TripleStacked ==> a.new_tail == a.old_tail)
            &&& (!(old_tail_cell.kind == CellKind::DoubleStacked || old_tail_cell.kind
                == CellKind::TripleStacked) ==> Some(a.new_tail)
                == old_tail_cell.spec_next_index())
        },
{
}

/// Hazard: a move landing on a marked square that holds no food, when it
/// survives at all, pays one health for the step and the hazard damage on
/// top, saturating at zero.
pub proof fn lemma_hazard_move_costs(b: BoardModel, id: SnakeId, m: Move, mode: EvaluateMode)
    requires
        b.healths[id.0 as int] > 0,
        spec_move_target(b, id, m, mode) matches Some(nh) ==> {
            &&& b.cells[nh.0 as int].hazard
            &&& b.cells[nh.0 as int].kind != CellKind::Food
        },
    ensures
        spec_single_move_result(b, id, m, mode) matches SinglePlayerMoveResult::Alive(a) ==> {
            &&& !a.ate_food
            &&& a.new_health as int == (if b.healths[id.0 as int] - 1 >= b.hazard_damage {
                b.healths[id.0 as int] - 1 - b.hazard_damage
            } else {
                0int
            })
            &&& a.new_length == b.lengths[id.0 as int]
        },
{
}

/// The health slot phase one leaves an agent whose id no alive entry of
/// the table carries: a zero slot stays zero.
proof fn lemma_phase_a_keeps_dead(
    b: BoardModel,
    moves: Seq<(SnakeId, Move)>,
    table: Seq<SinglePlayerMoveResult>,
    sid: int,
    n: int,
)
    requires
        0 <= sid < b.healths.len(),
        b.healths[sid] == 0,
        0 <= n <= moves.len(),
        forall|j: int|
            0 <= j < moves.len() ==> ((#[trigger] moves[j]).0.0 as int) < b.healths.len(),
        forall|j: int|
            0 <= j < moves.len() ==> (spec_alive_at(table, #[trigger] moves[j]) matches Some(a)
                ==> a.id.0 as int != sid && (a.id.0 as int) < b.healths.len()),
    ensures
        spec_phase_a(b, moves, table, n).healths.len() == b.healths.len(),
        sid < spec_phase_a(b, moves, table, n).healths.len(),
        spec_phase_a(b, moves, table, n).healths[sid] == 0,
    decreases n,
{
    if n > 0 {
        lemma_phase_a_keeps_dead(b, moves, table, sid, n - 1);
        let prev = spec_phase_a(b, moves, table, n - 1);
        let idm = moves[n - 1];
        assert(spec_phase_a(b, moves, table, n) == spec_phase_a_step(prev, idm, table));
        match spec_table_at(table, idm) {
            SinglePlayerMoveResult::Dead => {
                assert(spec_phase_a_step(prev, idm, table) == BoardModel::spec_kill_and_remove(
                    prev,
                    idm.0,
                ));
            },
            SinglePlayerMoveResult::Alive(a) => {
                assert(spec_alive_at(table, idm) == Some(a));
                assert(a.id.0 as int != sid);
            },
        }
    }
}

/// Phase three never touches the health slots.
proof fn lemma_phase_c_keeps_healths(
    bd: BoardModel,
    tk: Seq<bool>,
    moves: Seq<(SnakeId, Move)>,
    table: Seq<SinglePlayerMoveResult>,
    n: int,
)
    requires
        n >= 0,
    ensures
        spec_phase_c(bd, tk, moves, table, n).0.healths == bd.healths,
        spec_phase_c(bd, tk, moves, table, n).0.lengths == bd.lengths,
        spec_phase_c(bd, tk, moves, table, n).0.heads == bd.heads,
    decreases n,
{
    if n > 0 {
        lemma_phase_c_keeps_healths(bd, tk, moves, table, n - 1);
    }
}

/// The health slot phase four leaves an agent whose id no alive entry of
/// the table carries: a zero slot stays zero.
proof fn lemma_phase_d_keeps_dead(
    bd: BoardModel,
    orig: BoardModel,
    tk: Seq<bool>,
    moves: Seq<(SnakeId, Move)>,
    table: Seq<SinglePlayerMoveResult>,
    sid: int,
    n: int,
)
    requires
        0 <= sid < bd.healths.len(),
        bd.healths[sid] == 0,
        0 <= n <= moves.len(),
        forall|j: int|
            0 <= j < moves.len() ==> ((#[trigger] moves[j]).0.0 as int) < bd.healths.len(),
        forall|j: int|
            0 <= j < moves.len() ==> (spec_alive_at(table, #[trigger] moves[j]) matches Some(a)
                ==> a.id.0 as int != sid && (a.id.0 as int) < bd.healths.len()),
    ensures
        spec_phase_d(bd, orig, tk, moves, table, n).healths.len() == bd.healths.len(),
        sid < spec_phase_d(bd, orig, tk, moves, table, n).healths.len(),
        spec_phase_d(bd, orig, tk, moves, table, n).healths[sid] == 0,
    decreases n,
{
    if n > 0 {
        lemma_phase_d_keeps_dead(bd, orig, tk, moves, table, sid, n - 1);
        let prev = spec_phase_d(bd, orig, tk, moves, table, n - 1);
        let idm = moves[n - 1];
        assert(spec_phase_d(bd, orig, tk, moves, table, n) == spec_phase_d_step(
            prev,
            orig,
            tk,
            idm,
            table,
        ));
        match spec_alive_at(table, idm) {
            Some(a) => {
                assert(a.id.0 as int != sid);
                if tk[a.id.0 as int] {
                    assert(spec_phase_d_step(prev, orig, tk, idm, table)
                        == BoardModel::spec_kill_and_remove(prev, a.id));
                }
            },
            None => {
            },
        }
    }
}

/// The evaluator never revives: an agent that is dead going in, and whose
/// id no alive entry selected by the joint move carries, is still dead in
/// the successor. Together with [lemma_starving_move_dies] this pins the
/// starvation rule down to the successor board.
pub proof fn lemma_dead_stay_dead(
    b: BoardModel,
    moves: Seq<(SnakeId, Move)>,
    table: Seq<SinglePlayerMoveResult>,
    sid: int,
)
    requires
        0 <= sid < b.healths.len(),
        b.healths[sid] == 0,
        forall|j: int|
            0 <= j < moves.len() ==> ((#[trigger] moves[j]).0.0 as int) < b.healths.len(),
        forall|j: int|
            0 <= j < moves.len() ==> (spec_alive_at(table, #[trigger] moves[j]) matches Some(a)
                ==> a.id.0 as int != sid && (a.id.0 as int) < b.healths.len()),
    ensures
        sid < spec_evaluate(b, moves, table).healths.len(),
        spec_evaluate(b, moves, table).healths[sid] == 0,
{
    let after_a = spec_phase_a(b, moves, table, moves.len() as int);
    lemma_phase_a_keeps_dead(b, moves, table, sid, moves.len() as int);
    let tk0 = spec_phase_b(after_a, moves, table, moves.len() as int);
    let ct = spec_phase_c(after_a, tk0, moves, table, moves.len() as int);
    lemma_phase_c_keeps_healths(after_a, tk0, moves, table, moves.len() as int);
    lemma_phase_d_keeps_dead(ct.0, b, ct.1, moves, table, sid, moves.len() as int);
}


/// What the commit laws assume of a joint move: each agent moves at most
/// once, ids address the agent arrays, and every alive entry of the table
/// carries the id of the row that selected it, as the generated table does.
pub open spec fn spec_rows_ok(
    b: BoardModel,
    moves: Seq<(SnakeId, Move)>,
    table: Seq<SinglePlayerMoveResult>,
) -> bool {
    &&& b.lengths.len() == b.healths.len()
    &&& b.heads.len() == b.healths.len()
    &&& forall|j1: int, j2: int|
        0 <= j1 < j2 < moves.len() ==> (#[trigger] moves[j1]).0 != (#[trigger] moves[j2]).0
    &&& forall|j: int| 0 <= j < moves.len() ==> ((#[trigger] moves[j]).0.0 as int) < b.healths.len()
    &&& forall|j: int|
        0 <= j < moves.len() ==> (spec_alive_at(table, #[trigger] moves[j]) matches Some(a) ==> a.id
            == moves[j].0)
}

/// The slots phase one leaves an agent whose request is alive: its own
/// step writes its new health and length, and no other step touches them.
proof fn lemma_phase_a_tracks(
    b: BoardModel,
    moves: Seq<(SnakeId, Move)>,
    table: Seq<SinglePlayerMoveResult>,
    ji: int,
    n: int,
)
    requires
        spec_rows_ok(b, moves, table),
        0 <= ji < moves.len(),
        spec_alive_at(table, moves[ji]) is Some,
        ji < n <= moves.len(),
    ensures
        ({
            let a = spec_alive_at(table, moves[ji])->Some_0;
            let after = spec_phase_a(b, moves, table, n);
            &&& after.healths.len() == b.healths.len()
            &&& after.lengths.len() == b.lengths.len()
            &&& after.heads.len() == b.heads.len()
            &&& after.healths[a.id.0 as int] == a.new_health
            &&& after.lengths[a.id.0 as int] == a.new_length
            &&& after.heads[a.id.0 as int] == b.heads[a.id.0 as int]
        }),
    decreases n,
{
    let a = spec_alive_at(table, moves[ji])->Some_0;
    let sid = a.id.0 as int;
    let prev = spec_phase_a(b, moves, table, n - 1);
    let idm = moves[n - 1];
    if n - 1 == ji {
        lemma_phase_a_untouched(b, moves, table, ji, n - 1);
        assert(spec_phase_a(b, moves, table, n) == spec_phase_a_step(prev, idm, table));
        assert(a.id == moves[ji].0);
    } else {
        lemma_phase_a_tracks(b, moves, table, ji, n - 1);
        assert(spec_phase_a(b, moves, table, n) == spec_phase_a_step(prev, idm, table));
        assert(moves[n - 1].0 != moves[ji].0);
        match spec_table_at(table, idm) {
            SinglePlayerMoveResult::Dead => {
                assert(spec_phase_a_step(prev, idm, table) == BoardModel::spec_kill_and_remove(
                    prev,
                    idm.0,
                ));
                assert(idm.0.0 as int != sid);
            },
            SinglePlayerMoveResult::Alive(a2) => {
                assert(spec_alive_at(table, idm) == Some(a2));
                assert(a2.id == idm.0);
                assert(a2.id.0 as int != sid);
            },
        }
    }
}

/// The steps before an agent's own request leave its slots untouched.
proof fn lemma_phase_a_untouched(
    b: BoardModel,
    moves: Seq<(SnakeId, Move)>,
    table: Seq<SinglePlayerMoveResult>,
    ji: int,
    n: int,
)
    requires
        spec_rows_ok(b, moves, table),
        0 <= ji < moves.len(),
        0 <= n <= ji,
    ensures
        ({
            let sid = moves[ji].0.0 as int;
            let after = spec_phase_a(b, moves, table, n);
            &&& after.healths.len() == b.healths.len()
            &&& after.lengths.len() == b.lengths.len()
            &&& after.heads.len() == b.heads.len()
            &&& after.healths[sid] == b.healths[sid]
            &&& after.lengths[sid] == b.lengths[sid]
            &&& after.heads[sid] == b.heads[sid]
        }),
    decreases n,
{
    let sid = moves[ji].0.0 as int;
    if n > 0 {
        lemma_phase_a_untouched(b, moves, table, ji, n - 1);
        let prev = spec_phase_a(b, moves, table, n - 1);
        let idm = moves[n - 1];
        assert(spec_phase_a(b, moves, table, n) == spec_phase_a_step(prev, idm, table));
        assert(moves[n - 1].0 != moves[ji].0);
        match spec_table_at(table, idm) {
            SinglePlayerMoveResult::Dead => {
                assert(spec_phase_a_step(prev, idm, table) == BoardModel::spec_kill_and_remove(
                    prev,
                    idm.0,
                ));
                assert(idm.0.0 as int != sid);
            },
            SinglePlayerMoveResult::Alive(a2) => {
                assert(spec_alive_at(table, idm) == Some(a2));
                assert(a2.id == idm.0);
                assert(a2.id.0 as int != sid);
            },
        }
    }
}

/// Phase one keeps the lengths of the agent arrays.
proof fn lemma_phase_a_len_frame(
    b: BoardModel,
    moves: Seq<(SnakeId, Move)>,
    table: Seq<SinglePlayerMoveResult>,
    n: int,
)
    requires
        spec_rows_ok(b, moves, table),
        0 <= n <= moves.len(),
    ensures
        spec_phase_a(b, moves, table, n).healths.len() == b.healths.len(),
        spec_phase_a(b, moves, table, n).lengths.len() == b.lengths.len(),
        spec_phase_a(b, moves, table, n).heads.len() == b.heads.len(),
    decreases n,
{
    if n > 0 {
        lemma_phase_a_len_frame(b, moves, table, n - 1);
        let prev = spec_phase_a(b, moves, table, n - 1);
        let idm = moves[n - 1];
        assert(spec_phase_a(b, moves, table, n) == spec_phase_a_step(prev, idm, table));
        match spec_table_at(table, idm) {
            SinglePlayerMoveResult::Dead => {
                assert(spec_phase_a_step(prev, idm, table) == BoardModel::spec_kill_and_remove(
                    prev,
                    idm.0,
                ));
            },
            SinglePlayerMoveResult::Alive(a2) => {
                assert(spec_alive_at(table, idm) == Some(a2));
                assert(a2.id == idm.0);
            },
        }
    }
}

/// The slots phase four leaves an agent with an alive entry: removed when
/// it was marked, committed to its new head otherwise, and untouched by
/// every other step.
proof fn lemma_phase_d_tracks(
    bd: BoardModel,
    orig: BoardModel,
    tk: Seq<bool>,
    moves: Seq<(SnakeId, Move)>,
    table: Seq<SinglePlayerMoveResult>,
    ji: int,
    n: int,
)
    requires
        spec_rows_ok(bd, moves, table),
        0 <= ji < moves.len(),
        spec_alive_at(table, moves[ji]) is Some,
        ji < n <= moves.len(),
        ({
            let a = spec_alive_at(table, moves[ji])->Some_0;
            0 <= a.id.0 < tk.len()
        }),
    ensures
        ({
            let a = spec_alive_at(table, moves[ji])->Some_0;
            let after = spec_phase_d(bd, orig, tk, moves, table, n);
            &&& after.healths.len() == bd.healths.len()
            &&& after.lengths.len() == bd.lengths.len()
            &&& after.heads.len() == bd.heads.len()
            &&& (tk[a.id.0 as int] ==> after.healths[a.id.0 as int] == 0
                && after.lengths[a.id.0 as int] == 0)
            &&& (!tk[a.id.0 as int] ==> after.healths[a.id.0 as int] == bd.healths[a.id.0 as int]
                && after.lengths[a.id.0 as int] == bd.lengths[a.id.0 as int]
                && after.heads[a.id.0 as int] == a.new_head)
        }),
    decreases n,
{
    let a = spec_alive_at(table, moves[ji])->Some_0;
    let sid = a.id.0 as int;
    let prev = spec_phase_d(bd, orig, tk, moves, table, n - 1);
    let idm = moves[n - 1];
    if n - 1 == ji {
        lemma_phase_d_untouched(bd, orig, tk, moves, table, ji, n - 1);
        assert(spec_phase_d(bd, orig, tk, moves, table, n) == spec_phase_d_step(
            prev,
            orig,
            tk,
            idm,
            table,
        ));
        assert(a.id == moves[ji].0);
        if tk[sid] {
            assert(spec_phase_d_step(prev, orig, tk, idm, table)
                == BoardModel::spec_kill_and_remove(prev, a.id));
        }
    } else {
        lemma_phase_d_tracks(bd, orig, tk, moves, table, ji, n - 1);
        assert(spec_phase_d(bd, orig, tk, moves, table, n) == spec_phase_d_step(
            prev,
            orig,
            tk,
            idm,
            table,
        ));
        assert(moves[n - 1].0 != moves[ji].0);
        match spec_alive_at(table, idm) {
            Some(a2) => {
                assert(a2.id == idm.0);
                assert(a2.id.0 as int != sid);
                if tk[a2.id.0 as int] {
                    assert(spec_phase_d_step(prev, orig, tk, idm, table)
                        == BoardModel::spec_kill_and_remove(prev, a2.id));
                }
            },
            None => {
            },
        }
    }
}

/// The steps before an agent's own request leave its slots untouched in
/// phase four as well.
proof fn lemma_phase_d_untouched(
    bd: BoardModel,
    orig: BoardModel,
    tk: Seq<bool>,
    moves: Seq<(SnakeId, Move)>,
    table: Seq<SinglePlayerMoveResult>,
    ji: int,
    n: int,
)
    requires
        spec_rows_ok(bd, moves, table),
        0 <= ji < moves.len(),
        0 <= n <= ji,
    ensures
        ({
            let sid = moves[ji].0.0 as int;
            let after = spec_phase_d(bd, orig, tk, moves, table, n);
            &&& after.healths.len() == bd.healths.len()
            &&& after.lengths.len() == bd.lengths.len()
            &&& after.heads.len() == bd.heads.len()
            &&& after.healths[sid] == bd.healths[sid]
            &&& after.lengths[sid] == bd.lengths[sid]
            &&& after.heads[sid] == bd.heads[sid]
        }),
    decreases n,
{
    let sid = moves[ji].0.0 as int;
    if n > 0 {
        lemma_phase_d_untouched(bd, orig, tk, moves, table, ji, n - 1);
        let prev = spec_phase_d(bd, orig, tk, moves, table, n - 1);
        let idm = moves[n - 1];
        assert(spec_phase_d(bd, orig, tk, moves, table, n) == spec_phase_d_step(
            prev,
            orig,
            tk,
            idm,
            table,
        ));
        assert(moves[n - 1].0 != moves[ji].0);
        match spec_alive_at(table, idm) {
            Some(a2) => {
                assert(a2.id == idm.0);
                assert(a2.id.0 as int != sid);
                if tk[a2.id.0 as int] {
                    assert(spec_phase_d_step(prev, orig, tk, idm, table)
                        == BoardModel::spec_kill_and_remove(prev, a2.id));
                }
            },
            None => {
            },
        }
    }
}

/// Phase four keeps the lengths of the agent arrays.
proof fn lemma_phase_d_len_frame(
    bd: BoardModel,
    orig: BoardModel,
    tk: Seq<bool>,
    moves: Seq<(SnakeId, Move)>,
    table: Seq<SinglePlayerMoveResult>,
    n: int,
)
    requires
        spec_rows_ok(bd, moves, table),
        0 <= n <= moves.len(),
    ensures
        spec_phase_d(bd, orig, tk, moves, table, n).healths.len() == bd.healths.len(),
        spec_phase_d(bd, orig, tk, moves, table, n).lengths.len() == bd.lengths.len(),
        spec_phase_d(bd, orig, tk, moves, table, n).heads.len() == bd.heads.len(),
    decreases n,
{
    if n > 0 {
        lemma_phase_d_len_frame(bd, orig, tk, moves, table, n - 1);
        let prev = spec_phase_d(bd, orig, tk, moves, table, n - 1);
        let idm = moves[n - 1];
        assert(spec_phase_d(bd, orig, tk, moves, table, n) == spec_phase_d_step(
            prev,
            orig,
            tk,
            idm,
            table,
        ));
        match spec_alive_at(table, idm) {
            Some(a2) => {
                assert(a2.id == idm.0);
                if tk[a2.id.0 as int] {
                    assert(spec_phase_d_step(prev, orig, tk, idm, table)
                        == BoardModel::spec_kill_and_remove(prev, a2.id));
                }
            },
            None => {
            },
        }
    }
}

/// An agent whose request is alive and whom the collision marking spares
/// commits exactly its precomputed outcome in the successor: its health
/// and length are the isolated move's, and its head stands on its new
/// square. With an eating entry this is the growth rule in general form;
/// with the unique longest agent of a head-to-head group it is the winner
/// half of head-to-head resolution.
pub proof fn lemma_committed_move_applies(
    b: BoardModel,
    moves: Seq<(SnakeId, Move)>,
    table: Seq<SinglePlayerMoveResult>,
    ji: int,
)
    requires
        spec_rows_ok(b, moves, table),
        0 <= ji < moves.len(),
        spec_alive_at(table, moves[ji]) is Some,
        ({
            let a = spec_alive_at(table, moves[ji])->Some_0;
            let after_a = spec_phase_a(b, moves, table, moves.len() as int);
            let tk0 = spec_phase_b(after_a, moves, table, moves.len() as int);
            let tk = spec_phase_c(after_a, tk0, moves, table, moves.len() as int).1;
            &&& 0 <= a.id.0 < tk.len()
            &&& !tk[a.id.0 as int]
        }),
    ensures
        ({
            let a = spec_alive_at(table, moves[ji])->Some_0;
            let after = spec_evaluate(b, moves, table);
            &&& a.id.0 < after.healths.len()
            &&& after.healths[a.id.0 as int] == a.new_health
            &&& after.lengths[a.id.0 as int] == a.new_length
            &&& after.heads[a.id.0 as int] == a.new_head
        }),
{
    let a = spec_alive_at(table, moves[ji])->Some_0;
    let after_a = spec_phase_a(b, moves, table, moves.len() as int);
    let tk0 = spec_phase_b(after_a, moves, table, moves.len() as int);
    let ct = spec_phase_c(after_a, tk0, moves, table, moves.len() as int);
    lemma_phase_a_tracks(b, moves, table, ji, moves.len() as int);
    lemma_phase_c_keeps_healths(after_a, tk0, moves, table, moves.len() as int);
    assert(spec_rows_ok(ct.0, moves, table));
    lemma_phase_d_tracks(ct.0, b, ct.1, moves, table, ji, moves.len() as int);
}

/// An agent whose request is alive but whom the collision marking names
/// is removed from the successor: zero health and zero length. With a
/// head-to-head group this is the loser half of head-to-head resolution,
/// for unequal and equal lengths alike.
pub proof fn lemma_marked_agent_dies(
    b: BoardModel,
    moves: Seq<(SnakeId, Move)>,
    table: Seq<SinglePlayerMoveResult>,
    ji: int,
)
    requires
        spec_rows_ok(b, moves, table),
        0 <= ji < moves.len(),
        spec_alive_at(table, moves[ji]) is Some,
        ({
            let a = spec_alive_at(table, moves[ji])->Some_0;
            let after_a = spec_phase_a(b, moves, table, moves.len() as int);
            let tk0 = spec_phase_b(after_a, moves, table, moves.len() as int);
            let tk = spec_phase_c(after_a, tk0, moves, table, moves.len() as int).1;
            &&& 0 <= a.id.0 < tk.len()
            &&& tk[a.id.0 as int]
        }),
    ensures
        ({
            let a = spec_alive_at(table, moves[ji])->Some_0;
            let after = spec_evaluate(b, moves, table);
            &&& a.id.0 < after.healths.len()
            &&& after.healths[a.id.0 as int] == 0
            &&& after.lengths[a.id.0 as int] == 0
        }),
{
    let a = spec_alive_at(table, moves[ji])->Some_0;
    let after_a = spec_phase_a(b, moves, table, moves.len() as int);
    let tk0 = spec_phase_b(after_a, moves, table, moves.len() as int);
    let ct = spec_phase_c(after_a, tk0, moves, table, moves.len() as int);
    lemma_phase_a_tracks(b, moves, table, ji, moves.len() as int);
    lemma_phase_c_keeps_healths(after_a, tk0, moves, table, moves.len() as int);
    assert(spec_rows_ok(ct.0, moves, table));
    lemma_phase_d_tracks(ct.0, b, ct.1, moves, table, ji, moves.len() as int);
}

} // verus!
