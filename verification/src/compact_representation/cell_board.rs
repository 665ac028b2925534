//! The compact board: a flat array of bit-packable cells plus per-agent
//! health, length and head arrays.
use vstd::prelude::*;

use crate::compact_representation::cell::{lemma_cell_pack_round_trip, spec_pack_cell, spec_unpack_cell, Cell, CellIndex, CellKind};
use crate::compact_representation::dimensions::{Custom, Dimensions};
use crate::types::SnakeId;
use crate::wire_representation::Position;

verus! {

/// The mathematical content of a [CellBoard]: every field as a sequence.
pub ghost struct BoardModel {
    /// health lost per turn spent on a hazard square
    pub hazard_damage: u8,
    /// the flat cell array, row-major with stride `width`
    pub cells: Seq<Cell>,
    /// per-agent health; an agent is alive iff its health is nonzero
    pub healths: Seq<u8>,
    /// per-agent head index
    pub heads: Seq<CellIndex>,
    /// per-agent body length, counting stacked squares multiply
    pub lengths: Seq<u16>,
    /// the board width
    pub width: u8,
    /// the board height
    pub height: u8,
}

impl BoardModel {
    /// How many agents this board has room for.
    pub open spec fn max_snakes(self) -> int {
        self.healths.len() as int
    }

    /// The shape every board keeps: a nonempty grid whose cell array covers
    /// it, agent arrays of one common length, and every stored index within
    /// the cell array.
    pub open spec fn wf(self) -> bool {
        &&& self.width >= 1
        &&& self.height >= 1
        &&& self.cells.len() >= self.width * self.height
        &&& self.cells.len() <= u16::MAX + 1
        &&& self.heads.len() == self.healths.len()
        &&& self.lengths.len() == self.healths.len()
        &&& self.healths.len() <= 256
        &&& forall|i: int|
            0 <= i < self.heads.len() ==> (#[trigger] self.heads[i]).0 < self.width
                * self.height
        &&& forall|i: int|
            0 <= i < self.cells.len() ==> (#[trigger] self.cells[i]).idx.0 < self.cells.len()
    }

    /// Whether a position lies outside the grid.
    pub open spec fn spec_off_board(self, position: Position) -> bool {
        position.x < 0 || position.x >= self.width || position.y < 0 || position.y >= self.height
    }

    /// Where a single off-grid step folds to under toroidal geometry;
    /// on-grid positions stay put.
    pub open spec fn spec_wrap(self, p: Position) -> Position {
        if p.x < 0 {
            Position { x: (self.width - 1) as i32, y: p.y }
        } else if p.x >= self.width {
            Position { x: 0, y: p.y }
        } else if p.y < 0 {
            Position { x: p.x, y: (self.height - 1) as i32 }
        } else if p.y >= self.height {
            Position { x: p.x, y: 0 }
        } else {
            p
        }
    }
}

/// A compact board representation that is significantly faster to simulate
/// than the wire snapshot: one flat cell array and three per-agent arrays.
#[derive(Debug, PartialEq, Eq)]
pub struct CellBoard {
    pub(crate) hazard_damage: u8,
    pub(crate) cells: Vec<Cell>,
    pub(crate) healths: Vec<u8>,
    pub(crate) heads: Vec<CellIndex>,
    pub(crate) lengths: Vec<u16>,
    pub(crate) dimensions: Custom,
}

impl Clone for CellBoard {
    /// A board copies as plain data: the copy has the same model.
    fn clone(&self) -> (r: CellBoard)
        ensures
            r@ == self@,
    {
        let r = CellBoard {
            hazard_damage: self.hazard_damage,
            cells: self.cells.clone(),
            healths: self.healths.clone(),
            heads: self.heads.clone(),
            lengths: self.lengths.clone(),
            dimensions: self.dimensions,
        };
        proof {
            assert(r.cells@ =~= self.cells@);
            assert(r.healths@ =~= self.healths@);
            assert(r.heads@ =~= self.heads@);
            assert(r.lengths@ =~= self.lengths@);
            assert(r@ =~= self@);
        }
        r
    }
}

impl View for CellBoard {
    type V = BoardModel;

    closed spec fn view(&self) -> BoardModel {
        BoardModel {
            hazard_damage: self.hazard_damage,
            cells: self.cells@,
            healths: self.healths@,
            heads: self.heads@,
            lengths: self.lengths@,
            width: self.dimensions.spec_width(),
            height: self.dimensions.spec_height(),
        }
    }
}

impl CellBoard {
    /// the per-agent healths, indexed by agent id
    pub fn iter_healths(&self) -> (r: &Vec<u8>)
        ensures
            r@ == self@.healths,
    {
        &self.healths
    }

    /// the width of the board
    pub fn get_actual_width(&self) -> (r: u8)
        ensures
            r == self@.width,
    {
        self.dimensions.actual_width()
    }

    /// the height of the board
    pub fn get_actual_height(&self) -> (r: u8)
        ensures
            r == self@.height,
    {
        self.dimensions.height()
    }

    /// the stride positions are stored with; equal to the width here
    pub fn width(&self) -> (r: u8)
        ensures
            r == self@.width,
    {
        self.dimensions.stored_width()
    }

    /// how much health a hazard square costs per turn
    pub fn get_hazard_damage(&self) -> (r: u8)
        ensures
            r == self@.hazard_damage,
    {
        self.hazard_damage
    }

    /// Assemble a board from its parts.
    pub(crate) fn from_parts(
        hazard_damage: u8,
        cells: Vec<Cell>,
        healths: Vec<u8>,
        heads: Vec<CellIndex>,
        lengths: Vec<u16>,
        width: u8,
        height: u8,
    ) -> (r: CellBoard)
        ensures
            r@ == (BoardModel {
                hazard_damage,
                cells: cells@,
                healths: healths@,
                heads: heads@,
                lengths: lengths@,
                width,
                height,
            }),
    {
        let dimensions = Custom::from_dimensions(width, height);
        CellBoard { hazard_damage, cells, healths, heads, lengths, dimensions }
    }

    /// How many cells the board stores.
    pub fn cells_len(&self) -> (r: usize)
        ensures
            r == self@.cells.len(),
    {
        self.cells.len()
    }

    /// The cell standing at an index.
    pub(crate) fn get_cell(&self, cell_index: CellIndex) -> (r: Cell)
        requires
            cell_index.0 < self@.cells.len(),
        ensures
            r == self@.cells[cell_index.0 as int],
    {
        self.cells[cell_index.0 as usize]
    }

    /// determines if a given position is not on the board
    pub fn off_board(&self, position: Position) -> (r: bool)
        ensures
            r == self@.spec_off_board(position),
    {
        position.x < 0 || position.x >= self.get_actual_width() as i32 || position.y < 0
            || position.y >= self.get_actual_height() as i32
    }

    /// the length of a given agent
    pub fn get_length(&self, snake_id: SnakeId) -> (r: u16)
        requires
            (snake_id.0 as int) < self@.lengths.len(),
        ensures
            r == self@.lengths[snake_id.0 as int],
    {
        self.lengths[snake_id.0 as usize]
    }

    /// the health of a given agent; zero means dead
    pub fn get_health(&self, snake_id: &SnakeId) -> (r: u8)
        requires
            (snake_id.0 as int) < self@.healths.len(),
        ensures
            r == self@.healths[snake_id.0 as int],
    {
        self.healths[snake_id.0 as usize]
    }

    /// the head index of a given agent
    pub fn get_head_as_native_position(&self, snake_id: &SnakeId) -> (r: CellIndex)
        requires
            (snake_id.0 as int) < self@.heads.len(),
        ensures
            r == self@.heads[snake_id.0 as int],
    {
        self.heads[snake_id.0 as usize]
    }

    /// the head of a given agent as a position
    pub fn get_head_as_position(&self, snake_id: &SnakeId) -> (r: Position)
        requires
            self@.wf(),
            (snake_id.0 as int) < self@.heads.len(),
        ensures
            r == self@.heads[snake_id.0 as int].spec_position(self@.width),
    {
        let idx = self.heads[snake_id.0 as usize];
        idx.into_position(self.get_actual_width())
    }

    /// whether a given agent id is you: you are always agent 0
    pub fn is_you(&self, snake_id: &SnakeId) -> (r: bool)
        ensures
            r == (snake_id.0 == 0),
    {
        snake_id.0 == 0
    }

    /// your agent id
    pub fn you_id(&self) -> (r: SnakeId)
        ensures
            r == SnakeId(0),
    {
        SnakeId(0)
    }

    /// resets the cell at the given index to empty, preserving its hazard mark
    pub fn cell_remove(&mut self, cell_index: CellIndex)
        requires
            cell_index.0 < old(self)@.cells.len(),
        ensures
            final(self)@ == (BoardModel {
                cells: old(self)@.cells.update(
                    cell_index.0 as int,
                    Cell {
                        kind: CellKind::Empty,
                        hazard: old(self)@.cells[cell_index.0 as int].hazard,
                        id: SnakeId(0),
                        idx: CellIndex(0),
                    },
                ),
                ..old(self)@
            }),
    {
        let mut old_cell = self.get_cell(cell_index);
        old_cell.remove();
        self.cells[cell_index.0 as usize] = old_cell;
    }

    /// writes a body piece of the given agent at the given index, preserving
    /// the square's hazard mark
    pub fn set_cell_body_piece(&mut self, cell_index: CellIndex, sid: SnakeId, next_id: CellIndex)
        requires
            cell_index.0 < old(self)@.cells.len(),
        ensures
            final(self)@ == (BoardModel {
                cells: old(self)@.cells.update(
                    cell_index.0 as int,
                    Cell {
                        kind: CellKind::BodyPiece,
                        hazard: old(self)@.cells[cell_index.0 as int].hazard,
                        id: sid,
                        idx: next_id,
                    },
                ),
                ..old(self)@
            }),
    {
        let mut old_cell = self.get_cell(cell_index);
        old_cell.set_body_piece(sid, next_id);
        self.cells[cell_index.0 as usize] = old_cell;
    }

    /// writes a double stacked piece of the given agent at the given index,
    /// preserving the square's hazard mark
    pub fn set_cell_double_stacked(
        &mut self,
        cell_index: CellIndex,
        sid: SnakeId,
        next_id: CellIndex,
    )
        requires
            cell_index.0 < old(self)@.cells.len(),
        ensures
            final(self)@ == (BoardModel {
                cells: old(self)@.cells.update(
                    cell_index.0 as int,
                    Cell {
                        kind: CellKind::DoubleStacked,
                        hazard: old(self)@.cells[cell_index.0 as int].hazard,
                        id: sid,
                        idx: next_id,
                    },
                ),
                ..old(self)@
            }),
    {
        let mut old_cell = self.get_cell(cell_index);
        old_cell.set_double_stacked(sid, next_id);
        self.cells[cell_index.0 as usize] = old_cell;
    }

    /// writes a head of the given agent at the given index, preserving the
    /// square's hazard mark
    pub fn set_cell_head(&mut self, old_head_index: CellIndex, sid: SnakeId, next_id: CellIndex)
        requires
            old_head_index.0 < old(self)@.cells.len(),
        ensures
            final(self)@ == (BoardModel {
                cells: old(self)@.cells.update(
                    old_head_index.0 as int,
                    Cell {
                        kind: CellKind::Head,
                        hazard: old(self)@.cells[old_head_index.0 as int].hazard,
                        id: sid,
                        idx: next_id,
                    },
                ),
                ..old(self)@
            }),
    {
        let mut old_cell = self.get_cell(old_head_index);
        old_cell.set_head(sid, next_id);
        self.cells[old_head_index.0 as usize] = old_cell;
    }

    /// the agent owning the cell at a given index, when a snake stands on it
    pub fn get_snake_id_at(&self, index: CellIndex) -> (r: Option<SnakeId>)
        requires
            index.0 < self@.cells.len(),
        ensures
            r == self@.cells[index.0 as int].spec_snake_id(),
    {
        self.get_cell(index).get_snake_id()
    }

    /// determines if this cell is a hazard
    pub fn cell_is_hazard(&self, cell_idx: CellIndex) -> (r: bool)
        requires
            cell_idx.0 < self@.cells.len(),
        ensures
            r == self@.cells[cell_idx.0 as int].hazard,
    {
        self.get_cell(cell_idx).is_hazard()
    }

    /// determines if this cell is a snake head, counting triple stacks
    pub fn cell_is_snake_head(&self, cell_idx: CellIndex) -> (r: bool)
        requires
            cell_idx.0 < self@.cells.len(),
        ensures
            r == self@.cells[cell_idx.0 as int].spec_is_head(),
    {
        self.get_cell(cell_idx).is_head()
    }

    /// determines if this cell is a food
    pub fn cell_is_food(&self, cell_idx: CellIndex) -> (r: bool)
        requires
            cell_idx.0 < self@.cells.len(),
        ensures
            r == (self@.cells[cell_idx.0 as int].kind == CellKind::Food),
    {
        self.get_cell(cell_idx).is_food()
    }

    /// determines if this cell is a snake body piece, stacked or not
    pub fn cell_is_body(&self, cell_idx: CellIndex) -> (r: bool)
        requires
            cell_idx.0 < self@.cells.len(),
        ensures
            r == self@.cells[cell_idx.0 as int].spec_is_body_segment(),
    {
        self.get_cell(cell_idx).is_body()
    }

    /// whether the given position is any snake's body segment
    pub fn position_is_snake_body(&self, pos: CellIndex) -> (r: bool)
        requires
            pos.0 < self@.cells.len(),
        ensures
            r == self@.cells[pos.0 as int].spec_is_body_segment(),
    {
        self.get_cell(pos).is_body_segment()
    }

    /// the position a native index denotes
    pub fn position_from_native(&self, native: CellIndex) -> (r: Position)
        requires
            self@.wf(),
        ensures
            r == native.spec_position(self@.width),
    {
        native.into_position(self.get_actual_width())
    }

    /// the native index a position denotes; the position must be on the board
    pub fn native_from_position(&self, pos: Position) -> (r: CellIndex)
        requires
            self@.wf(),
            !self@.spec_off_board(pos),
        ensures
            r.0 == pos.y * self@.width + pos.x,
    {
        proof {
            let w = self@.width as int;
            let h = self@.height as int;
            assert(pos.y * w + pos.x < h * w) by (nonlinear_arith)
                requires
                    0 <= pos.x < w,
                    0 <= pos.y < h,
                    w >= 1,
                    h >= 1,
            ;
            assert(h * w == w * h) by (nonlinear_arith);
        }
        CellIndex::new(pos, self.get_actual_width())
    }

    /// whether the cell at the given index is the unstacked tail of some agent
    pub fn cell_is_single_tail(&self, cell_idx: CellIndex) -> (r: bool)
        requires
            self@.wf(),
        ensures
            r == self@.spec_is_single_tail(cell_idx),
    {
        if cell_idx.0 as usize >= self.cells.len() {
            return false;
        }
        let cell = self.get_cell(cell_idx);
        if !cell.is_snake_body_piece() || cell.is_double_stacked_piece()
            || cell.is_triple_stacked_piece() {
            return false;
        }
        if let Some(sid) = cell.get_snake_id() {
            if sid.0 as usize >= self.heads.len() {
                return false;
            }
            let head = self.heads[sid.0 as usize];
            let tail = self.get_cell(head).get_tail_position(head);
            match tail {
                Some(t) => t == cell_idx,
                None => false,
            }
        } else {
            false
        }
    }

    /// ids of the agents still alive, in ascending order
    pub fn get_snake_ids(&self) -> (r: Vec<SnakeId>)
        requires
            self@.healths.len() <= 256,
        ensures
            r@ == BoardModel::spec_alive_ids(self@.healths, self@.healths.len() as int),
    {
        let mut out: Vec<SnakeId> = Vec::new();
        let mut i: usize = 0;
        while i < self.healths.len()
            invariant
                i <= self@.healths.len(),
                self@.healths.len() <= 256,
                out@ == BoardModel::spec_alive_ids(self@.healths, i as int),
            decreases self@.healths.len() - i,
        {
            if self.healths[i] > 0 {
                out.push(SnakeId(i as u8));
            }
            i = i + 1;
        }
        out
    }

    /// how many agents are alive
    pub fn alive_snake_count(&self) -> (r: usize)
        ensures
            r == BoardModel::spec_alive_count(self@.healths, self@.healths.len() as int),
    {
        let mut count: usize = 0;
        let mut i: usize = 0;
        while i < self.healths.len()
            invariant
                i <= self@.healths.len(),
                count == BoardModel::spec_alive_count(self@.healths, i as int),
                count <= i,
            decreases self@.healths.len() - i,
        {
            if self.healths[i] != 0 {
                count = count + 1;
            }
            i = i + 1;
        }
        count
    }

    /// whether this game is over: you are dead, or at most one agent lives
    pub fn is_over(&self) -> (r: bool)
        requires
            self@.healths.len() >= 1,
        ensures
            r == self@.spec_is_over(),
    {
        self.healths[0] == 0 || self.alive_snake_count() <= 1
    }

    /// The winner: the unique agent left alive once the game is over.
    /// None while the game runs, when nobody lives, and when you are dead
    /// while several others still stand, which no one wins.
    pub fn get_winner(&self) -> (r: Option<SnakeId>)
        requires
            self@.healths.len() >= 1,
            self@.healths.len() <= 256,
        ensures
            r == self@.spec_winner(),
    {
        if self.is_over() {
            let alive = self.get_snake_ids();
            proof {
                BoardModel::lemma_alive_ids_first(self@.healths, self@.healths.len() as int);
            }
            if alive.len() == 1 {
                Some(alive[0])
            } else {
                None
            }
        } else {
            None
        }
    }

    /// whether the given index is the neck of the given agent: the body
    /// piece whose link points straight at the agent's head
    pub fn is_neck(&self, sid: &SnakeId, pos: &CellIndex) -> (r: bool)
        requires
            self@.wf(),
            (sid.0 as int) < self@.heads.len(),
            pos.0 < self@.cells.len(),
        ensures
            r == (self@.cells[pos.0 as int].spec_snake_id() == Some(*sid)
                && self@.cells[pos.0 as int].spec_next_index() == Some(
                self@.heads[sid.0 as int],
            )),
    {
        let potential_neck = self.get_cell(*pos);
        let oid = potential_neck.get_snake_id();
        let nxt = potential_neck.get_next_index();
        let head = self.get_head_as_native_position(sid);
        match (oid, nxt) {
            (Some(o), Some(n)) => o == *sid && n == head,
            _ => false,
        }
    }

    /// every empty cell of the board, in index order
    pub fn get_empty_cells(&self) -> (r: Vec<CellIndex>)
        requires
            self@.wf(),
        ensures
            r@ == BoardModel::spec_empty_cells(self@.cells, self@.cells.len() as int),
    {
        let mut out: Vec<CellIndex> = Vec::new();
        let mut i: usize = 0;
        while i < self.cells.len()
            invariant
                i <= self@.cells.len(),
                self@.cells.len() <= u16::MAX + 1,
                out@ == BoardModel::spec_empty_cells(self@.cells, i as int),
            decreases self@.cells.len() - i,
        {
            if self.cells[i].is_empty() {
                out.push(CellIndex(i as u16));
            }
            i = i + 1;
        }
        out
    }

    /// every food cell of the board, in index order
    pub fn get_all_food_as_native_positions(&self) -> (r: Vec<CellIndex>)
        requires
            self@.wf(),
        ensures
            r@ == BoardModel::spec_food_cells(self@.cells, self@.cells.len() as int),
    {
        let mut out: Vec<CellIndex> = Vec::new();
        let mut i: usize = 0;
        while i < self.cells.len()
            invariant
                i <= self@.cells.len(),
                self@.cells.len() <= u16::MAX + 1,
                out@ == BoardModel::spec_food_cells(self@.cells, i as int),
            decreases self@.cells.len() - i,
        {
            if self.cells[i].is_food() {
                out.push(CellIndex(i as u16));
            }
            i = i + 1;
        }
        out
    }

    /// every food cell of the board as a position, in index order
    pub fn get_all_food_as_positions(&self) -> (r: Vec<Position>)
        requires
            self@.wf(),
        ensures
            r@ == BoardModel::spec_food_cells(self@.cells, self@.cells.len() as int).map(
                |k: int, ci: CellIndex| ci.spec_position(self@.width),
            ),
    {
        let native = self.get_all_food_as_native_positions();
        let mut out: Vec<Position> = Vec::new();
        let mut i: usize = 0;
        while i < native.len()
            invariant
                i <= native@.len(),
                self@.wf(),
                native@ == BoardModel::spec_food_cells(self@.cells, self@.cells.len() as int),
                out@ == native@.take(i as int).map(
                    |k: int, ci: CellIndex| ci.spec_position(self@.width),
                ),
            decreases native@.len() - i,
        {
            out.push(native[i].into_position(self.get_actual_width()));
            proof {
                assert(native@.take(i + 1) =~= native@.take(i as int).push(native@[i as int]));
                assert(native@.take(i + 1).map(
                    |k: int, ci: CellIndex| ci.spec_position(self@.width),
                ) =~= native@.take(i as int).map(
                    |k: int, ci: CellIndex| ci.spec_position(self@.width),
                ).push(native@[i as int].spec_position(self@.width)));
            }
            i = i + 1;
        }
        proof {
            assert(native@.take(native@.len() as int) =~= native@);
        }
        out
    }

    /// marks the square at the given index hazardous
    pub fn set_hazard(&mut self, pos: CellIndex)
        requires
            pos.0 < old(self)@.cells.len(),
        ensures
            final(self)@ == (BoardModel {
                cells: old(self)@.cells.update(
                    pos.0 as int,
                    Cell { hazard: true, ..old(self)@.cells[pos.0 as int] },
                ),
                ..old(self)@
            }),
    {
        let mut c = self.get_cell(pos);
        c.set_hazard();
        self.cells[pos.0 as usize] = c;
    }

    /// clears the hazard mark of the square at the given index
    pub fn clear_hazard(&mut self, pos: CellIndex)
        requires
            pos.0 < old(self)@.cells.len(),
        ensures
            final(self)@ == (BoardModel {
                cells: old(self)@.cells.update(
                    pos.0 as int,
                    Cell { hazard: false, ..old(self)@.cells[pos.0 as int] },
                ),
                ..old(self)@
            }),
    {
        let mut c = self.get_cell(pos);
        c.clear_hazard();
        self.cells[pos.0 as usize] = c;
    }
}

impl BoardModel {
    /// Whether the cell at an index is some agent's unstacked tail.
    pub open spec fn spec_is_single_tail(self, cell_idx: CellIndex) -> bool {
        &&& cell_idx.0 < self.cells.len()
        &&& self.cells[cell_idx.0 as int].kind == CellKind::BodyPiece
        &&& (self.cells[cell_idx.0 as int].id.0 as int) < self.heads.len()
        &&& {
            let sid = self.cells[cell_idx.0 as int].id;
            let head = self.heads[sid.0 as int];
            self.cells[head.0 as int].spec_tail_position(head) == Some(cell_idx)
        }
    }

    /// The ids of the alive agents among the first `n`.
    pub open spec fn spec_alive_ids(healths: Seq<u8>, n: int) -> Seq<SnakeId>
        decreases n,
    {
        if n <= 0 {
            Seq::empty()
        } else if healths[n - 1] > 0 {
            Self::spec_alive_ids(healths, n - 1).push(SnakeId((n - 1) as u8))
        } else {
            Self::spec_alive_ids(healths, n - 1)
        }
    }

    /// How many of the first `n` agents are alive.
    pub open spec fn spec_alive_count(healths: Seq<u8>, n: int) -> int
        decreases n,
    {
        if n <= 0 {
            0
        } else if healths[n - 1] != 0 {
            Self::spec_alive_count(healths, n - 1) + 1
        } else {
            Self::spec_alive_count(healths, n - 1)
        }
    }

    /// Whether the game is over: you are dead or at most one agent lives.
    pub open spec fn spec_is_over(self) -> bool {
        self.healths[0] == 0 || Self::spec_alive_count(self.healths, self.healths.len() as int)
            <= 1
    }

    /// The winner as [CellBoard::get_winner] reports it: the unique alive
    /// agent of a finished game, and None otherwise — in particular None
    /// when you are dead while several others still stand.
    pub open spec fn spec_winner(self) -> Option<SnakeId> {
        if self.spec_is_over() {
            let alive = Self::spec_alive_ids(self.healths, self.healths.len() as int);
            if alive.len() == 1 {
                Some(alive[0])
            } else {
                None
            }
        } else {
            None
        }
    }

    /// The empty cells among the first `n`, in index order.
    pub open spec fn spec_empty_cells(cells: Seq<Cell>, n: int) -> Seq<CellIndex>
        decreases n,
    {
        if n <= 0 {
            Seq::empty()
        } else if cells[n - 1].kind == CellKind::Empty {
            Self::spec_empty_cells(cells, n - 1).push(CellIndex((n - 1) as u16))
        } else {
            Self::spec_empty_cells(cells, n - 1)
        }
    }

    /// The food cells among the first `n`, in index order.
    pub open spec fn spec_food_cells(cells: Seq<Cell>, n: int) -> Seq<CellIndex>
        decreases n,
    {
        if n <= 0 {
            Seq::empty()
        } else if cells[n - 1].kind == CellKind::Food {
            Self::spec_food_cells(cells, n - 1).push(CellIndex((n - 1) as u16))
        } else {
            Self::spec_food_cells(cells, n - 1)
        }
    }

    /// Every id listed by `spec_alive_ids` is alive, and the first alive
    /// agent heads the list.
    pub proof fn lemma_alive_ids_first(healths: Seq<u8>, n: int)
        requires
            0 <= n <= healths.len(),
            n <= 256,
        ensures
            Self::spec_alive_ids(healths, n).len() == Self::spec_alive_count(healths, n),
            forall|k: int|
                0 <= k < Self::spec_alive_ids(healths, n).len() ==> {
                    let sid = #[trigger] Self::spec_alive_ids(healths, n)[k];
                    0 <= sid.0 < n && healths[sid.0 as int] > 0
                },
            Self::spec_alive_ids(healths, n).len() == 0 ==> forall|j: int|
                0 <= j < n ==> healths[j] == 0,
            Self::spec_alive_ids(healths, n).len() > 0 ==> forall|j: int|
                0 <= j < Self::spec_alive_ids(healths, n)[0].0 as int ==> healths[j] == 0,
        decreases n,
    {
        if n > 0 {
            Self::lemma_alive_ids_first(healths, n - 1);
        }
    }
}


impl BoardModel {
    /// A cell reset to empty with its hazard mark kept.
    pub open spec fn spec_cleared(c: Cell) -> Cell {
        Cell { kind: CellKind::Empty, hazard: c.hazard, id: SnakeId(0), idx: CellIndex(0) }
    }

    /// The cell array after clearing the chain that starts at `start` and
    /// follows each cell's link until a cell without one, or until the fuel
    /// runs out. Each cell's link is read before the cell is cleared.
    pub open spec fn spec_remove_chain(cells: Seq<Cell>, start: Option<CellIndex>, fuel: nat) -> Seq<
        Cell,
    >
        decreases fuel,
    {
        match start {
            None => cells,
            Some(i) => {
                if fuel == 0 || i.0 as int >= cells.len() {
                    cells
                } else {
                    let nxt = cells[i.0 as int].spec_next_index();
                    let cleared = cells.update(i.0 as int, Self::spec_cleared(cells[i.0 as int]));
                    Self::spec_remove_chain(cleared, nxt, (fuel - 1) as nat)
                }
            },
        }
    }

    /// Clearing a chain keeps the array length and the bound on stored links.
    pub proof fn lemma_remove_chain_wf(cells: Seq<Cell>, start: Option<CellIndex>, fuel: nat)
        requires
            forall|i: int| 0 <= i < cells.len() ==> (#[trigger] cells[i]).idx.0 < cells.len(),
        ensures
            Self::spec_remove_chain(cells, start, fuel).len() == cells.len(),
            forall|i: int|
                0 <= i < cells.len() ==> (#[trigger] Self::spec_remove_chain(cells, start, fuel)[i]).idx.0
                    < cells.len(),
        decreases fuel,
    {
        match start {
            None => {},
            Some(i) => {
                if fuel == 0 || i.0 as int >= cells.len() {
                } else {
                    let nxt = cells[i.0 as int].spec_next_index();
                    let cleared = cells.update(i.0 as int, Self::spec_cleared(cells[i.0 as int]));
                    Self::lemma_remove_chain_wf(cleared, nxt, (fuel - 1) as nat);
                }
            },
        }
    }

    /// The board after an agent dies: its body chain is cleared from the
    /// grid (hazard marks kept) and its health, head and length are zeroed.
    pub open spec fn spec_kill_and_remove(b: BoardModel, sid: SnakeId) -> BoardModel {
        let head = b.heads[sid.0 as int];
        let start = b.cells[head.0 as int].spec_tail_position(head);
        BoardModel {
            cells: Self::spec_remove_chain(b.cells, start, (b.cells.len() + 1) as nat),
            healths: b.healths.update(sid.0 as int, 0u8),
            heads: b.heads.update(sid.0 as int, CellIndex(0)),
            lengths: b.lengths.update(sid.0 as int, 0u16),
            ..b
        }
    }

    /// How many body segments a walked cell stands for.
    pub open spec fn spec_stack_count(c: Cell) -> int {
        if c.kind == CellKind::TripleStacked {
            3
        } else if c.kind == CellKind::DoubleStacked {
            2
        } else {
            1
        }
    }

    /// The number of segments found walking the ring from `idx` to `head`
    /// over body cells owned by `sid`, or None when the walk breaks or the
    /// fuel runs out first.
    pub open spec fn spec_walk_count(
        cells: Seq<Cell>,
        idx: CellIndex,
        head: CellIndex,
        sid: SnakeId,
        fuel: nat,
    ) -> Option<int>
        decreases fuel,
    {
        if idx == head {
            Some(0)
        } else if fuel == 0 || idx.0 as int >= cells.len() {
            None
        } else {
            let c = cells[idx.0 as int];
            if !c.spec_is_body_segment() || c.spec_snake_id() != Some(sid) {
                None
            } else {
                match c.spec_next_index() {
                    None => None,
                    Some(n) => match Self::spec_walk_count(cells, n, head, sid, (fuel - 1) as nat) {
                        None => None,
                        Some(k) => Some(k + Self::spec_stack_count(c)),
                    },
                }
            }
        }
    }

    /// Whether one agent's ring is intact: from the head's tail link, the
    /// walk reaches the head over its own body cells, and the segments
    /// counted (stacks counting multiply, the head counting once, or three
    /// times while triple stacked) equal the agent's recorded length.
    pub open spec fn spec_snake_consistent(self, i: int) -> bool {
        self.healths[i] > 0 ==> {
            let head = self.heads[i];
            let hc = self.cells[head.0 as int];
            match hc.spec_tail_position(head) {
                None => false,
                Some(tail) => match Self::spec_walk_count(
                    self.cells,
                    tail,
                    head,
                    SnakeId(i as u8),
                    self.cells.len(),
                ) {
                    None => false,
                    Some(k) => k + (if hc.kind == CellKind::TripleStacked {
                        3int
                    } else {
                        1int
                    }) == self.lengths[i],
                },
            }
        }
    }

    /// Whether every alive agent's ring is intact.
    pub open spec fn spec_consistent(self) -> bool {
        forall|i: int| 0 <= i < self.healths.len() ==> self.spec_snake_consistent(i)
    }

    /// The distinct squares visited walking links from `start`, in walk
    /// order, stopping at a cell without a link or when the fuel runs out.
    pub open spec fn spec_body_chain(cells: Seq<Cell>, start: Option<CellIndex>, fuel: nat) -> Seq<
        CellIndex,
    >
        decreases fuel,
    {
        match start {
            None => Seq::empty(),
            Some(i) => {
                if fuel == 0 || i.0 as int >= cells.len() {
                    Seq::empty()
                } else {
                    seq![i] + Self::spec_body_chain(
                        cells,
                        cells[i.0 as int].spec_next_index(),
                        (fuel - 1) as nat,
                    )
                }
            },
        }
    }

    /// The squares visited walking links from `start`, each repeated once
    /// per stacked segment, in walk order.
    pub open spec fn spec_body_chain_stacked(
        cells: Seq<Cell>,
        start: Option<CellIndex>,
        fuel: nat,
    ) -> Seq<CellIndex>
        decreases fuel,
    {
        match start {
            None => Seq::empty(),
            Some(i) => {
                if fuel == 0 || i.0 as int >= cells.len() {
                    Seq::empty()
                } else {
                    let c = cells[i.0 as int];
                    let reps: Seq<CellIndex> = if c.kind == CellKind::TripleStacked {
                        seq![i, i, i]
                    } else if c.kind == CellKind::DoubleStacked {
                        seq![i, i]
                    } else {
                        seq![i]
                    };
                    reps + Self::spec_body_chain_stacked(
                        cells,
                        c.spec_next_index(),
                        (fuel - 1) as nat,
                    )
                }
            },
        }
    }
}

impl CellBoard {
    /// Write an agent's health slot.
    pub(crate) fn set_health_slot(&mut self, sid: SnakeId, h: u8)
        requires
            (sid.0 as int) < old(self)@.healths.len(),
        ensures
            final(self)@ == (BoardModel {
                healths: old(self)@.healths.update(sid.0 as int, h),
                ..old(self)@
            }),
    {
        self.healths[sid.0 as usize] = h;
    }

    /// Write an agent's length slot.
    pub(crate) fn set_length_slot(&mut self, sid: SnakeId, l: u16)
        requires
            (sid.0 as int) < old(self)@.lengths.len(),
        ensures
            final(self)@ == (BoardModel {
                lengths: old(self)@.lengths.update(sid.0 as int, l),
                ..old(self)@
            }),
    {
        self.lengths[sid.0 as usize] = l;
    }

    /// Write an agent's head slot.
    pub(crate) fn set_head_slot(&mut self, sid: SnakeId, ci: CellIndex)
        requires
            (sid.0 as int) < old(self)@.heads.len(),
        ensures
            final(self)@ == (BoardModel {
                heads: old(self)@.heads.update(sid.0 as int, ci),
                ..old(self)@
            }),
    {
        self.heads[sid.0 as usize] = ci;
    }

    /// Zero an agent's slots without touching the grid.
    fn kill(&mut self, sid: SnakeId)
        requires
            (sid.0 as int) < old(self)@.healths.len(),
            old(self)@.heads.len() == old(self)@.healths.len(),
            old(self)@.lengths.len() == old(self)@.healths.len(),
        ensures
            final(self)@ == (BoardModel {
                healths: old(self)@.healths.update(sid.0 as int, 0u8),
                heads: old(self)@.heads.update(sid.0 as int, CellIndex(0)),
                lengths: old(self)@.lengths.update(sid.0 as int, 0u16),
                ..old(self)@
            }),
    {
        self.healths[sid.0 as usize] = 0;
        self.heads[sid.0 as usize] = CellIndex(0);
        self.lengths[sid.0 as usize] = 0;
    }

    /// removes an agent from the board: clears its body chain from the grid
    /// (hazard marks kept) and zeroes its health, head and length
    pub fn kill_and_remove(&mut self, sid: SnakeId)
        requires
            old(self)@.wf(),
            (sid.0 as int) < old(self)@.healths.len(),
        ensures
            final(self)@ == BoardModel::spec_kill_and_remove(old(self)@, sid),
            final(self)@.wf(),
            final(self)@.cells.len() == old(self)@.cells.len(),
            final(self)@.healths.len() == old(self)@.healths.len(),
            final(self)@.lengths.len() == old(self)@.lengths.len(),
            final(self)@.heads.len() == old(self)@.heads.len(),
            final(self)@.width == old(self)@.width,
            final(self)@.height == old(self)@.height,
    {
        let ghost orig = self@;
        let head = self.heads[sid.0 as usize];
        let mut current_index = self.get_cell(head).get_tail_position(head);
        let mut fuel: usize = self.cells.len() + 1;
        proof {
            BoardModel::lemma_remove_chain_wf(orig.cells, current_index, fuel as nat);
        }
        while current_index.is_some() && fuel > 0
            invariant
                self@.cells.len() == orig.cells.len(),
                self@.healths == orig.healths,
                self@.heads == orig.heads,
                self@.lengths == orig.lengths,
                self@.width == orig.width,
                self@.height == orig.height,
                self@.hazard_damage == orig.hazard_damage,
                forall|i: int|
                    0 <= i < self@.cells.len() ==> (#[trigger] self@.cells[i]).idx.0
                        < self@.cells.len(),
                current_index matches Some(ci) ==> ci.0 < self@.cells.len(),
                BoardModel::spec_remove_chain(orig.cells, orig.cells[orig.heads[sid.0 as int].0 as int].spec_tail_position(orig.heads[sid.0 as int]), (orig.cells.len() + 1) as nat)
                    == BoardModel::spec_remove_chain(self@.cells, current_index, fuel as nat),
            decreases fuel,
        {
            let i = current_index.unwrap();
            current_index = self.get_cell(i).get_next_index();
            self.cell_remove(i);
            fuel = fuel - 1;
        }
        proof {
            if current_index is Some {
                assert(fuel == 0);
            }
        }
        self.kill(sid);
        proof {
            BoardModel::lemma_remove_chain_wf(
                orig.cells,
                orig.cells[orig.heads[sid.0 as int].0 as int].spec_tail_position(
                    orig.heads[sid.0 as int],
                ),
                (orig.cells.len() + 1) as nat,
            );
        }
    }

    /// folds a position that stepped at most one square off the board back
    /// onto it under toroidal geometry, and returns its cell index
    pub fn as_wrapped_cell_index(&self, new_head_position: Position) -> (r: CellIndex)
        requires
            self@.wf(),
            self@.spec_off_board(new_head_position) ==> {
                ||| (new_head_position.x == -1 && 0 <= new_head_position.y < self@.height)
                ||| (new_head_position.x == self@.width && 0 <= new_head_position.y < self@.height)
                ||| (new_head_position.y == -1 && 0 <= new_head_position.x < self@.width)
                ||| (new_head_position.y == self@.height && 0 <= new_head_position.x < self@.width)
            },
        ensures
            r.0 == self@.spec_wrap(new_head_position).y * self@.width + self@.spec_wrap(
                new_head_position,
            ).x,
            r.0 < self@.cells.len(),
    {
        let width = self.get_actual_width();
        let height = self.get_actual_height();
        let mut pos = new_head_position;
        if self.off_board(pos) {
            if pos.x < 0 {
                pos.x = width as i32 - 1;
            } else if pos.x >= width as i32 {
                pos.x = 0;
            } else if pos.y < 0 {
                pos.y = height as i32 - 1;
            } else {
                pos.y = 0;
            }
        }
        proof {
            assert(pos == self@.spec_wrap(new_head_position));
            let w = self@.width as int;
            let h = self@.height as int;
            assert(pos.y * w + pos.x < h * w) by (nonlinear_arith)
                requires
                    0 <= pos.x < w,
                    0 <= pos.y < h,
                    w >= 1,
                    h >= 1,
            ;
            assert(h * w == w * h) by (nonlinear_arith);
        }
        CellIndex::new(pos, width)
    }

    /// walks every alive agent's ring and reports whether each is intact,
    /// including that the counted segments match the recorded length
    #[verifier::loop_isolation(false)]
    pub fn assert_consistency(&self) -> (r: bool)
        requires
            self@.wf(),
        ensures
            r == self@.spec_consistent(),
    {
        let mut i: usize = 0;
        while i < self.healths.len()
            invariant
                self@.wf(),
                i <= self@.healths.len(),
                forall|k: int| 0 <= k < i ==> self@.spec_snake_consistent(k),
            decreases self@.healths.len() - i,
        {
            if self.healths[i] > 0 {
                let snake_id = SnakeId(i as u8);
                let head = self.heads[i];
                let head_cell = self.get_cell(head);
                let tail = head_cell.get_tail_position(head);
                match tail {
                    None => {
                        proof {
                            assert(!self@.spec_snake_consistent(i as int));
                        }
                        return false;
                    },
                    Some(t) => {
                        let mut idx = t;
                        let mut count: u64 = 0;
                        let mut fuel: usize = self.cells.len();
                        let ghost walk_full = BoardModel::spec_walk_count(
                            self@.cells,
                            t,
                            head,
                            snake_id,
                            self@.cells.len(),
                        );
                        while idx != head && fuel > 0
                            invariant
                                self@.wf(),
                                idx.0 < self@.cells.len(),
                                fuel <= self@.cells.len(),
                                count <= 3 * (self@.cells.len() - fuel),
                                walk_full == BoardModel::spec_walk_count(
                                    self@.cells,
                                    t,
                                    head,
                                    snake_id,
                                    self@.cells.len(),
                                ),
                                walk_full == match BoardModel::spec_walk_count(
                                    self@.cells,
                                    idx,
                                    head,
                                    snake_id,
                                    fuel as nat,
                                ) {
                                    None => None::<int>,
                                    Some(k) => Some(k + count),
                                },
                            decreases fuel,
                        {
                            let cell = self.get_cell(idx);
                            proof {
                                reveal_with_fuel(BoardModel::spec_walk_count, 2);
                            }
                            if !cell.is_body_segment() {
                                proof {
                                    assert(BoardModel::spec_walk_count(
                                        self@.cells,
                                        idx,
                                        head,
                                        snake_id,
                                        fuel as nat,
                                    ) is None);
                                    assert(!self@.spec_snake_consistent(i as int));
                                }
                                return false;
                            }
                            let oid = cell.get_snake_id();
                            let owner_ok = match oid {
                                Some(o) => o.0 == snake_id.0,
                                None => false,
                            };
                            if !owner_ok {
                                proof {
                                    assert(cell.spec_snake_id() != Some(snake_id));
                                    assert(BoardModel::spec_walk_count(
                                        self@.cells,
                                        idx,
                                        head,
                                        snake_id,
                                        fuel as nat,
                                    ) is None);
                                    assert(!self@.spec_snake_consistent(i as int));
                                }
                                return false;
                            }
                            if cell.is_triple_stacked_piece() {
                                count = count + 3;
                            } else if cell.is_double_stacked_piece() {
                                count = count + 2;
                            } else {
                                count = count + 1;
                            }
                            match cell.get_next_index() {
                                None => {
                                    proof {
                                        assert(BoardModel::spec_walk_count(
                                            self@.cells,
                                            idx,
                                            head,
                                            snake_id,
                                            fuel as nat,
                                        ) is None);
                                        assert(!self@.spec_snake_consistent(i as int));
                                    }
                                    return false;
                                },
                                Some(n) => {
                                    idx = n;
                                },
                            }
                            fuel = fuel - 1;
                        }
                        if idx != head {
                            proof {
                                assert(fuel == 0);
                                assert(BoardModel::spec_walk_count(
                                    self@.cells,
                                    idx,
                                    head,
                                    snake_id,
                                    fuel as nat,
                                ) is None);
                                assert(!self@.spec_snake_consistent(i as int));
                            }
                            return false;
                        }
                        proof {
                            assert(BoardModel::spec_walk_count(
                                self@.cells,
                                idx,
                                head,
                                snake_id,
                                fuel as nat,
                            ) == Some(0int));
                            assert(walk_full == Some(count as int));
                        }
                        let head_count: u64 = if head_cell.is_triple_stacked_piece() {
                            3
                        } else {
                            1
                        };
                        if count + head_count != self.lengths[i] as u64 {
                            proof {
                                assert(!self@.spec_snake_consistent(i as int));
                            }
                            return false;
                        }
                        proof {
                            assert(self@.spec_snake_consistent(i as int));
                        }
                    },
                }
            }
            i = i + 1;
        }
        true
    }

    /// the distinct squares of an agent's body, in walk order from its tail
    /// to its head
    pub fn get_snake_body_iter(&self, snake_id: &SnakeId) -> (r: Vec<CellIndex>)
        requires
            self@.wf(),
            (snake_id.0 as int) < self@.heads.len(),
        ensures
            r@ == BoardModel::spec_body_chain(
                self@.cells,
                self@.cells[self@.heads[snake_id.0 as int].0 as int].spec_tail_position(
                    self@.heads[snake_id.0 as int],
                ),
                (self@.cells.len() + 1) as nat,
            ),
    {
        let head = self.get_head_as_native_position(snake_id);
        let mut cur = self.get_cell(head).get_tail_position(head);
        let mut fuel: usize = self.cells.len() + 1;
        let mut out: Vec<CellIndex> = Vec::new();
        let ghost full = BoardModel::spec_body_chain(self@.cells, cur, fuel as nat);
        while cur.is_some() && fuel > 0
            invariant
                self@.wf(),
                cur matches Some(ci) ==> ci.0 < self@.cells.len(),
                full == out@ + BoardModel::spec_body_chain(self@.cells, cur, fuel as nat),
            decreases fuel,
        {
            let c = cur.unwrap();
            out.push(c);
            cur = self.get_cell(c).get_next_index();
            fuel = fuel - 1;
            proof {
                assert(full =~= out@ + BoardModel::spec_body_chain(
                    self@.cells,
                    cur,
                    fuel as nat,
                ));
            }
        }
        proof {
            assert(full =~= out@);
        }
        out
    }

    /// an agent's body squares ordered head first, stacked squares repeated
    /// once per segment they hold
    pub fn get_snake_body_vec(&self, snake_id: &SnakeId) -> (r: Vec<CellIndex>)
        requires
            self@.wf(),
            (snake_id.0 as int) < self@.heads.len(),
        ensures
            r@ == BoardModel::spec_body_chain_stacked(
                self@.cells,
                self@.cells[self@.heads[snake_id.0 as int].0 as int].spec_tail_position(
                    self@.heads[snake_id.0 as int],
                ),
                (self@.cells.len() + 1) as nat,
            ).reverse(),
    {
        let head = self.get_head_as_native_position(snake_id);
        let mut cur = self.get_cell(head).get_tail_position(head);
        let mut fuel: usize = self.cells.len() + 1;
        let mut body: Vec<CellIndex> = Vec::new();
        let ghost full = BoardModel::spec_body_chain_stacked(self@.cells, cur, fuel as nat);
        while cur.is_some() && fuel > 0
            invariant
                self@.wf(),
                cur matches Some(ci) ==> ci.0 < self@.cells.len(),
                full == body@ + BoardModel::spec_body_chain_stacked(self@.cells, cur, fuel as nat),
            decreases fuel,
        {
            let c = cur.unwrap();
            body.push(c);
            let cell = self.get_cell(c);
            if cell.is_double_stacked_piece() {
                body.push(c);
            }
            if cell.is_triple_stacked_piece() {
                body.push(c);
                body.push(c);
            }
            cur = cell.get_next_index();
            fuel = fuel - 1;
            proof {
                assert(full =~= body@ + BoardModel::spec_body_chain_stacked(
                    self@.cells,
                    cur,
                    fuel as nat,
                ));
            }
        }
        proof {
            assert(full =~= body@);
        }
        let mut out: Vec<CellIndex> = Vec::new();
        let mut j: usize = body.len();
        while j > 0
            invariant
                j <= body@.len(),
                out@ =~= body@.subrange(j as int, body@.len() as int).reverse(),
            decreases j,
        {
            j = j - 1;
            out.push(body[j]);
            proof {
                assert(out@ =~= body@.subrange(j as int, body@.len() as int).reverse());
            }
        }
        proof {
            assert(body@.subrange(0, body@.len() as int) =~= body@);
            assert(out@ =~= body@.reverse());
        }
        out
    }
}



/// The stable dict-of-arrays form a board packs to, used for fixtures and
/// crash reproduction; not a wire format. Every field holds unsigned words:
/// scalars as one-element arrays, cells packed as in
/// [crate::compact_representation::cell::Cell::pack_as_u32].
#[derive(Debug, Clone, PartialEq, Eq)]
pub struct PackedCellBoard {
    /// one element: the hazard damage
    pub hazard_damage: Vec<u32>,
    /// one element: the board width
    pub actual_width: Vec<u32>,
    /// one element: the board height
    pub actual_height: Vec<u32>,
    /// per-agent health
    pub healths: Vec<u32>,
    /// per-agent length
    pub lengths: Vec<u32>,
    /// per-agent head index
    pub heads: Vec<u32>,
    /// every cell as a packed 32-bit word
    pub cells: Vec<u32>,
}

/// The mathematical content of a [PackedCellBoard].
pub ghost struct PackedModel {
    /// one element: the hazard damage
    pub hazard_damage: Seq<u32>,
    /// one element: the board width
    pub actual_width: Seq<u32>,
    /// one element: the board height
    pub actual_height: Seq<u32>,
    /// per-agent health
    pub healths: Seq<u32>,
    /// per-agent length
    pub lengths: Seq<u32>,
    /// per-agent head index
    pub heads: Seq<u32>,
    /// every cell as a packed word
    pub cells: Seq<u32>,
}

impl View for PackedCellBoard {
    type V = PackedModel;

    open spec fn view(&self) -> PackedModel {
        PackedModel {
            hazard_damage: self.hazard_damage@,
            actual_width: self.actual_width@,
            actual_height: self.actual_height@,
            healths: self.healths@,
            lengths: self.lengths@,
            heads: self.heads@,
            cells: self.cells@,
        }
    }
}

impl PackedModel {
    /// What a pack produced by a well-formed board looks like: the right
    /// array lengths, every word in its field's range, and every cell word
    /// a canonical cell encoding.
    pub open spec fn packed_wf(self) -> bool {
        &&& self.hazard_damage.len() == 1 && self.hazard_damage[0] <= u8::MAX
        &&& self.actual_width.len() == 1 && 1 <= self.actual_width[0] <= u8::MAX
        &&& self.actual_height.len() == 1 && 1 <= self.actual_height[0] <= u8::MAX
        &&& self.healths.len() == self.lengths.len()
        &&& self.healths.len() == self.heads.len()
        &&& self.healths.len() <= 256
        &&& forall|i: int| 0 <= i < self.healths.len() ==> #[trigger] self.healths[i] <= u8::MAX
        &&& forall|i: int| 0 <= i < self.lengths.len() ==> #[trigger] self.lengths[i] <= u16::MAX
        &&& forall|i: int|
            0 <= i < self.heads.len() ==> #[trigger] self.heads[i] < self.actual_width[0]
                * self.actual_height[0]
        &&& self.cells.len() >= self.actual_width[0] * self.actual_height[0]
        &&& self.cells.len() <= u16::MAX + 1
        &&& forall|i: int|
            0 <= i < self.cells.len() ==> #[trigger] self.cells[i] == spec_pack_cell(
                spec_unpack_cell(self.cells[i]),
            )
        &&& forall|i: int|
            0 <= i < self.cells.len() ==> (spec_unpack_cell(
                #[trigger] self.cells[i],
            )).idx.0 < self.cells.len()
    }
}

impl BoardModel {
    /// The pack of a board.
    pub open spec fn spec_pack_board(b: BoardModel) -> PackedModel {
        PackedModel {
            hazard_damage: seq![b.hazard_damage as u32],
            actual_width: seq![b.width as u32],
            actual_height: seq![b.height as u32],
            healths: b.healths.map(|i: int, h: u8| h as u32),
            lengths: b.lengths.map(|i: int, l: u16| l as u32),
            heads: b.heads.map(|i: int, ci: CellIndex| ci.0 as u32),
            cells: b.cells.map(|i: int, c: Cell| spec_pack_cell(c)),
        }
    }

    /// The board a pack unpacks to.
    pub open spec fn spec_unpack_board(h: PackedModel) -> BoardModel {
        BoardModel {
            hazard_damage: h.hazard_damage[0] as u8,
            width: h.actual_width[0] as u8,
            height: h.actual_height[0] as u8,
            healths: h.healths.map(|i: int, v: u32| v as u8),
            lengths: h.lengths.map(|i: int, v: u32| v as u16),
            heads: h.heads.map(|i: int, v: u32| CellIndex(v as u16)),
            cells: h.cells.map(|i: int, v: u32| spec_unpack_cell(v)),
        }
    }

    /// Unpacking a well-formed pack gives a well-formed board, and packing
    /// that board gives the pack back: the fixture format loses nothing.
    pub proof fn lemma_packed_round_trip(h: PackedModel)
        requires
            h.packed_wf(),
        ensures
            Self::spec_unpack_board(h).wf(),
            Self::spec_pack_board(Self::spec_unpack_board(h)) == h,
    {
        let b = Self::spec_unpack_board(h);
        assert(b.wf());
        let p = Self::spec_pack_board(b);
        assert(p.hazard_damage =~= h.hazard_damage);
        assert(p.actual_width =~= h.actual_width);
        assert(p.actual_height =~= h.actual_height);
        assert(p.healths =~= h.healths);
        assert(p.lengths =~= h.lengths);
        assert(p.heads =~= h.heads);
        assert(p.cells =~= h.cells);
        assert(p =~= h);
    }

    /// Packing a well-formed board gives a well-formed pack, and unpacking
    /// that pack gives the board back.
    pub proof fn lemma_board_pack_round_trip(b: BoardModel)
        requires
            b.wf(),
        ensures
            Self::spec_pack_board(b).packed_wf(),
            Self::spec_unpack_board(Self::spec_pack_board(b)) == b,
    {
        let p = Self::spec_pack_board(b);
        assert forall|i: int| 0 <= i < p.cells.len() implies #[trigger] p.cells[i]
            == spec_pack_cell(spec_unpack_cell(p.cells[i])) && (spec_unpack_cell(
            p.cells[i],
        )).idx.0 < p.cells.len() by {
            lemma_cell_pack_round_trip(b.cells[i]);
        }
        assert(p.packed_wf());
        let b2 = Self::spec_unpack_board(p);
        assert forall|i: int| 0 <= i < b2.cells.len() implies #[trigger] b2.cells[i]
            == b.cells[i] by {
            lemma_cell_pack_round_trip(b.cells[i]);
        }
        assert(b2.healths =~= b.healths);
        assert(b2.lengths =~= b.lengths);
        assert(b2.heads =~= b.heads);
        assert(b2.cells =~= b.cells);
        assert(b2 =~= b);
    }
}

impl CellBoard {
    /// packs this board into its stable dict-of-arrays form, for fixtures
    /// and crash reproduction
    pub fn pack_as_hash(&self) -> (r: PackedCellBoard)
        ensures
            r@ == BoardModel::spec_pack_board(self@),
    {
        let mut healths: Vec<u32> = Vec::new();
        let mut i: usize = 0;
        while i < self.healths.len()
            invariant
                i <= self@.healths.len(),
                healths@ =~= self@.healths.take(i as int).map(|k: int, h: u8| h as u32),
            decreases self@.healths.len() - i,
        {
            healths.push(self.healths[i] as u32);
            proof {
                assert(self@.healths.take(i + 1) =~= self@.healths.take(i as int).push(
                    self@.healths[i as int],
                ));
                assert(healths@ =~= self@.healths.take(i + 1).map(|k: int, h: u8| h as u32));
            }
            i = i + 1;
        }
        let mut lengths: Vec<u32> = Vec::new();
        let mut i: usize = 0;
        while i < self.lengths.len()
            invariant
                i <= self@.lengths.len(),
                lengths@ =~= self@.lengths.take(i as int).map(|k: int, l: u16| l as u32),
            decreases self@.lengths.len() - i,
        {
            lengths.push(self.lengths[i] as u32);
            proof {
                assert(self@.lengths.take(i + 1) =~= self@.lengths.take(i as int).push(
                    self@.lengths[i as int],
                ));
                assert(lengths@ =~= self@.lengths.take(i + 1).map(|k: int, l: u16| l as u32));
            }
            i = i + 1;
        }
        let mut heads: Vec<u32> = Vec::new();
        let mut i: usize = 0;
        while i < self.heads.len()
            invariant
                i <= self@.heads.len(),
                heads@ =~= self@.heads.take(i as int).map(|k: int, ci: CellIndex| ci.0 as u32),
            decreases self@.heads.len() - i,
        {
            heads.push(self.heads[i].0 as u32);
            proof {
                assert(self@.heads.take(i + 1) =~= self@.heads.take(i as int).push(
                    self@.heads[i as int],
                ));
                assert(heads@ =~= self@.heads.take(i + 1).map(
                    |k: int, ci: CellIndex| ci.0 as u32,
                ));
            }
            i = i + 1;
        }
        let mut cells: Vec<u32> = Vec::new();
        let mut i: usize = 0;
        while i < self.cells.len()
            invariant
                i <= self@.cells.len(),
                cells@ =~= self@.cells.take(i as int).map(|k: int, c: Cell| spec_pack_cell(c)),
            decreases self@.cells.len() - i,
        {
            cells.push(self.cells[i].pack_as_u32());
            proof {
                assert(self@.cells.take(i + 1) =~= self@.cells.take(i as int).push(
                    self@.cells[i as int],
                ));
                assert(cells@ =~= self@.cells.take(i + 1).map(
                    |k: int, c: Cell| spec_pack_cell(c),
                ));
            }
            i = i + 1;
        }
        let mut hazard_damage: Vec<u32> = Vec::new();
        hazard_damage.push(self.hazard_damage as u32);
        let mut actual_width: Vec<u32> = Vec::new();
        actual_width.push(self.get_actual_width() as u32);
        let mut actual_height: Vec<u32> = Vec::new();
        actual_height.push(self.get_actual_height() as u32);
        let r = PackedCellBoard { hazard_damage, actual_width, actual_height, healths, lengths, heads, cells };
        proof {
            assert(self@.healths.take(self@.healths.len() as int) =~= self@.healths);
            assert(self@.lengths.take(self@.lengths.len() as int) =~= self@.lengths);
            assert(self@.heads.take(self@.heads.len() as int) =~= self@.heads);
            assert(self@.cells.take(self@.cells.len() as int) =~= self@.cells);
            assert(r@.hazard_damage =~= BoardModel::spec_pack_board(self@).hazard_damage);
            assert(r@.actual_width =~= BoardModel::spec_pack_board(self@).actual_width);
            assert(r@.actual_height =~= BoardModel::spec_pack_board(self@).actual_height);
            assert(r@ =~= BoardModel::spec_pack_board(self@));
        }
        r
    }

    /// unpacks a board from its stable dict-of-arrays form; the pack must
    /// describe a board, as every pack produced by one does
    pub fn from_packed_hash(hash: &PackedCellBoard) -> (r: CellBoard)
        requires
            hash@.packed_wf(),
        ensures
            r@ == BoardModel::spec_unpack_board(hash@),
            r@.wf(),
    {
        let hazard_damage: u8 = hash.hazard_damage[0] as u8;
        let width: u8 = hash.actual_width[0] as u8;
        let height: u8 = hash.actual_height[0] as u8;
        let mut healths: Vec<u8> = Vec::new();
        let mut i: usize = 0;
        while i < hash.healths.len()
            invariant
                hash@.packed_wf(),
                i <= hash@.healths.len(),
                healths@ =~= hash@.healths.take(i as int).map(|k: int, v: u32| v as u8),
            decreases hash@.healths.len() - i,
        {
            healths.push(hash.healths[i] as u8);
            proof {
                assert(hash@.healths.take(i + 1) =~= hash@.healths.take(i as int).push(
                    hash@.healths[i as int],
                ));
                assert(healths@ =~= hash@.healths.take(i + 1).map(|k: int, v: u32| v as u8));
            }
            i = i + 1;
        }
        let mut lengths: Vec<u16> = Vec::new();
        let mut i: usize = 0;
        while i < hash.lengths.len()
            invariant
                hash@.packed_wf(),
                i <= hash@.lengths.len(),
                lengths@ =~= hash@.lengths.take(i as int).map(|k: int, v: u32| v as u16),
            decreases hash@.lengths.len() - i,
        {
            lengths.push(hash.lengths[i] as u16);
            proof {
                assert(hash@.lengths.take(i + 1) =~= hash@.lengths.take(i as int).push(
                    hash@.lengths[i as int],
                ));
                assert(lengths@ =~= hash@.lengths.take(i + 1).map(|k: int, v: u32| v as u16));
            }
            i = i + 1;
        }
        let mut heads: Vec<CellIndex> = Vec::new();
        let mut i: usize = 0;
        while i < hash.heads.len()
            invariant
                hash@.packed_wf(),
                i <= hash@.heads.len(),
                heads@ =~= hash@.heads.take(i as int).map(|k: int, v: u32| CellIndex(v as u16)),
            decreases hash@.heads.len() - i,
        {
            heads.push(CellIndex(hash.heads[i] as u16));
            proof {
                assert(hash@.heads.take(i + 1) =~= hash@.heads.take(i as int).push(
                    hash@.heads[i as int],
                ));
                assert(heads@ =~= hash@.heads.take(i + 1).map(
                    |k: int, v: u32| CellIndex(v as u16),
                ));
            }
            i = i + 1;
        }
        let mut cells: Vec<Cell> = Vec::new();
        let mut i: usize = 0;
        while i < hash.cells.len()
            invariant
                hash@.packed_wf(),
                i <= hash@.cells.len(),
                cells@ =~= hash@.cells.take(i as int).map(|k: int, v: u32| spec_unpack_cell(v)),
            decreases hash@.cells.len() - i,
        {
            cells.push(Cell::from_u32(hash.cells[i]));
            proof {
                assert(hash@.cells.take(i + 1) =~= hash@.cells.take(i as int).push(
                    hash@.cells[i as int],
                ));
                assert(cells@ =~= hash@.cells.take(i + 1).map(
                    |k: int, v: u32| spec_unpack_cell(v),
                ));
            }
            i = i + 1;
        }
        let dimensions = Custom::from_dimensions(width, height);
        let r = CellBoard { hazard_damage, cells, healths, heads, lengths, dimensions };
        proof {
            assert(hash@.healths.take(hash@.healths.len() as int) =~= hash@.healths);
            assert(hash@.lengths.take(hash@.lengths.len() as int) =~= hash@.lengths);
            assert(hash@.heads.take(hash@.heads.len() as int) =~= hash@.heads);
            assert(hash@.cells.take(hash@.cells.len() as int) =~= hash@.cells);
            assert(r@ =~= BoardModel::spec_unpack_board(hash@));
            BoardModel::lemma_packed_round_trip(hash@);
        }
        r
    }
}



impl BoardModel {
    /// The listed empty cells are exactly the empty squares, each within
    /// the scanned range.
    pub proof fn lemma_empty_cells_shape(cells: Seq<Cell>, n: int)
        requires
            0 <= n <= cells.len(),
            cells.len() <= u16::MAX + 1,
        ensures
            forall|w: int|
                0 <= w < Self::spec_empty_cells(cells, n).len() ==> {
                    let ci = #[trigger] Self::spec_empty_cells(cells, n)[w];
                    0 <= ci.0 < n && cells[ci.0 as int].kind == CellKind::Empty
                },
            Self::spec_empty_cells(cells, n).len() == 0 ==> forall|i: int|
                0 <= i < n ==> (#[trigger] cells[i]).kind != CellKind::Empty,
        decreases n,
    {
        if n > 0 {
            Self::lemma_empty_cells_shape(cells, n - 1);
            let prev = Self::spec_empty_cells(cells, n - 1);
            let cur = Self::spec_empty_cells(cells, n);
            assert forall|w: int| 0 <= w < cur.len() implies {
                let ci = #[trigger] cur[w];
                0 <= ci.0 < n && cells[ci.0 as int].kind == CellKind::Empty
            } by {
                if w < prev.len() {
                    assert(cur[w] == prev[w]);
                }
            }
        }
    }

    /// The listed food cells are empty exactly when no square holds food.
    pub proof fn lemma_food_cells_shape(cells: Seq<Cell>, n: int)
        requires
            0 <= n <= cells.len(),
        ensures
            Self::spec_food_cells(cells, n).len() == 0 <==> forall|i: int|
                0 <= i < n ==> (#[trigger] cells[i]).kind != CellKind::Food,
        decreases n,
    {
        if n > 0 {
            Self::lemma_food_cells_shape(cells, n - 1);
            if cells[n - 1].kind == CellKind::Food {
                assert(Self::spec_food_cells(cells, n).len() > 0);
            }
        }
    }
}

impl CellBoard {
    /// places food for rollout play: when the board has none, one uniformly
    /// chosen empty square becomes food; otherwise one more is added with
    /// probability fifteen in one hundred. Never called by move evaluation,
    /// whose rules deliberately leave food spawning out.
    pub fn place_food(&mut self)
        requires
            old(self)@.wf(),
        ensures
            ({
                let b = old(self)@;
                let had_food = exists|i: int|
                    0 <= i < b.cells.len() && (#[trigger] b.cells[i]).kind == CellKind::Food;
                let has_empty = exists|i: int|
                    0 <= i < b.cells.len() && (#[trigger] b.cells[i]).kind == CellKind::Empty;
                let placed_one = exists|i: int|
                    0 <= i < b.cells.len() && (#[trigger] b.cells[i]).kind == CellKind::Empty
                        && final(self)@ == (BoardModel {
                        cells: b.cells.update(i, Cell { kind: CellKind::Food, ..b.cells[i] }),
                        ..b
                    });
                &&& (!had_food && has_empty ==> placed_one)
                &&& (!had_food && !has_empty ==> final(self)@ == b)
                &&& (had_food ==> final(self)@ == b || placed_one)
            }),
            final(self)@.wf(),
    {
        let ghost b = self@;
        let food = self.get_all_food_as_native_positions();
        proof {
            BoardModel::lemma_food_cells_shape(b.cells, b.cells.len() as int);
        }
        let food_to_add: usize = if food.len() == 0 {
            1
        } else {
            if crate::random_source::random_ratio(15, 100) {
                1
            } else {
                0
            }
        };
        if food_to_add == 0 {
            return ;
        }
        let empty = self.get_empty_cells();
        proof {
            BoardModel::lemma_empty_cells_shape(b.cells, b.cells.len() as int);
        }
        if empty.len() == 0 {
            return ;
        }
        let pick = crate::random_source::random_index_below(empty.len());
        let idx = empty[pick];
        let mut c = self.get_cell(idx);
        c.set_food();
        self.cells[idx.0 as usize] = c;
        proof {
            assert(final(self)@ =~= (BoardModel {
                cells: b.cells.update(
                    idx.0 as int,
                    Cell { kind: CellKind::Food, ..b.cells[idx.0 as int] },
                ),
                ..b
            }));
        }
    }
}


} // verus!
