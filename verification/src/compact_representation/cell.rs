//! The per-square building blocks of the compact board: flat cell indices
//! and the tagged cell record.
use vstd::prelude::*;

use crate::types::{Move, SnakeId};
use crate::wire_representation::Position;

verus! {

/// a triple stacked square holds three body segments
pub const TRIPLE_STACK: usize = 3;

/// a double stacked square holds two body segments
pub const DOUBLE_STACK: usize = 2;

/// wrapper type for an index into the flat cell array: `y * width + x`
#[derive(Debug, Clone, Copy, PartialEq, Eq, Hash, PartialOrd, Ord, Structural)]
pub struct CellIndex(pub u16);

impl CellIndex {
    /// makes a new cell index from a position; needs to know the width of
    /// the board. Any signed position is taken, as long as its flat
    /// row-major index is representable.
    pub fn new(pos: Position, width: u8) -> (r: CellIndex)
        requires
            0 <= pos.y * width + pos.x <= u16::MAX,
        ensures
            r.0 == pos.y * width + pos.x,
    {
        CellIndex((pos.y as i64 * width as i64 + pos.x as i64) as u16)
    }

    /// build a CellIndex from a usize
    pub fn from_usize(u: usize) -> (r: CellIndex)
        requires
            u <= u16::MAX,
        ensures
            r.0 == u,
    {
        CellIndex(u as u16)
    }

    /// build a CellIndex from an i32
    pub fn from_i32(i: i32) -> (r: CellIndex)
        requires
            0 <= i <= u16::MAX,
        ensures
            r.0 == i,
    {
        CellIndex(i as u16)
    }

    /// build a CellIndex from a u32
    pub fn from_u32(u: u32) -> (r: CellIndex)
        requires
            u <= u16::MAX,
        ensures
            r.0 == u,
    {
        CellIndex(u as u16)
    }

    /// get a usize from a CellIndex
    pub fn as_usize(&self) -> (r: usize)
        ensures
            r == self.0 as usize,
    {
        self.0 as usize
    }

    /// The position this index denotes on a board of the given width.
    pub open spec fn spec_position(self, width: u8) -> Position {
        Position { x: (self.0 as int % width as int) as i32, y: (self.0 as int / width as int) as i32 }
    }

    /// converts a cell index back to a position
    pub fn into_position(self, width: u8) -> (r: Position)
        requires
            width > 0,
        ensures
            r == self.spec_position(width),
            0 <= r.x < width,
            0 <= r.y,
            r.y * width + r.x == self.0,
    {
        let y = (self.0 / width as u16) as i32;
        let x = (self.0 % width as u16) as i32;
        proof {
            let w = width as int;
            let v = self.0 as int;
            vstd::arithmetic::div_mod::lemma_fundamental_div_mod(v, w);
            assert(v == w * (v / w) + v % w);
            assert(y as int == v / w);
            assert(x as int == v % w);
            assert((v / w) * w == w * (v / w)) by (nonlinear_arith);
        }
        Position { x, y }
    }

    /// the cell index one step in the direction of the given move: the raw
    /// arithmetic neighbor, with no bounds test — a step over an edge is
    /// the caller's to catch. The stepped flat index must stay
    /// representable.
    pub fn in_direction(&self, m: &Move, width: u8) -> (r: CellIndex)
        requires
            width > 0,
            0 <= (self.spec_position(width).y + m.spec_to_vector().y) * width + (
            self.spec_position(width).x + m.spec_to_vector().x) <= u16::MAX,
        ensures
            r.0 == (self.spec_position(width).y + m.spec_to_vector().y) * width + (
            self.spec_position(width).x + m.spec_to_vector().x),
    {
        let pos = self.into_position(width);
        let v = m.to_vector();
        CellIndex::new(pos.add_vec(v), width)
    }
}

/// What one square holds; exactly one kind at a time.
#[derive(Debug, Clone, Copy, PartialEq, Eq, Hash, Structural)]
pub enum CellKind {
    /// nothing on this square
    Empty,
    /// a food item
    Food,
    /// an agent's head
    Head,
    /// one body segment
    BodyPiece,
    /// two body segments stacked on one square
    DoubleStacked,
    /// three body segments stacked on one square; only seen at spawn
    TripleStacked,
}

/// One square of the board: its kind, an orthogonal hazard flag, the owning
/// agent (meaningful only for snake kinds) and a link index (on a head: the
/// tail; on a body or double stacked piece: the next cell toward the head).
#[derive(Debug, Clone, Copy, PartialEq, Eq, Hash, Structural)]
pub struct Cell {
    /// which kind of square this is
    pub kind: CellKind,
    /// whether the square is hazardous; independent of the kind
    pub hazard: bool,
    /// the owning agent, meaningful only for snake kinds
    pub id: SnakeId,
    /// the link index, meaningful on heads, body pieces and double stacks
    pub idx: CellIndex,
}

/// The byte code each kind packs to.
pub open spec fn spec_kind_code(kind: CellKind) -> u8 {
    match kind {
        CellKind::BodyPiece => 1u8,
        CellKind::DoubleStacked => 2u8,
        CellKind::TripleStacked => 3u8,
        CellKind::Food => 4u8,
        CellKind::Empty => 5u8,
        CellKind::Head => 6u8,
    }
}

/// The kind each byte code unpacks to; codes that no cell packs to fall
/// back to Empty.
pub open spec fn spec_kind_from_code(code: u8) -> CellKind {
    if code == 1 {
        CellKind::BodyPiece
    } else if code == 2 {
        CellKind::DoubleStacked
    } else if code == 3 {
        CellKind::TripleStacked
    } else if code == 4 {
        CellKind::Food
    } else if code == 6 {
        CellKind::Head
    } else {
        CellKind::Empty
    }
}

/// The 32-bit word a cell packs to: flags in the low byte (kind code plus
/// a hazard bit at 0x10), owner in the next byte, link index in the top two.
pub open spec fn spec_pack_cell(c: Cell) -> u32 {
    (spec_kind_code(c.kind) | (if c.hazard {
        0x10u8
    } else {
        0u8
    })) as u32 | ((c.id.0 as u32) << 8) | ((c.idx.0 as u32) << 16)
}

/// The cell a 32-bit word unpacks to.
pub open spec fn spec_unpack_cell(value: u32) -> Cell {
    Cell {
        kind: spec_kind_from_code((value & 0x07) as u8),
        hazard: value & 0x10 != 0,
        id: SnakeId(((value >> 8) & 0xff) as u8),
        idx: CellIndex(((value >> 16) & 0xffff) as u16),
    }
}

/// Packing then unpacking gives the cell back.
pub proof fn lemma_cell_pack_round_trip(c: Cell)
    ensures
        spec_unpack_cell(spec_pack_cell(c)) == c,
{
    let code = spec_kind_code(c.kind);
    let h: u8 = if c.hazard {
        0x10u8
    } else {
        0u8
    };
    let f = code | h;
    let v = spec_pack_cell(c);
    assert(code <= 6 && (h == 0 || h == 0x10)) by {
        match c.kind {
            CellKind::BodyPiece => {},
            CellKind::DoubleStacked => {},
            CellKind::TripleStacked => {},
            CellKind::Food => {},
            CellKind::Empty => {},
            CellKind::Head => {},
        }
    }
    let id = c.id.0;
    let ix = c.idx.0;
    assert(code >= 1);
    assert({
        let vv = (code | h) as u32 | ((id as u32) << 8) | ((ix as u32) << 16);
        (vv & 0x07) as u8 == code && (vv & 0x10 != 0) == (h == 0x10) && ((vv >> 8) & 0xff) as u8
            == id && ((vv >> 16) & 0xffff) as u16 == ix
    }) by (bit_vector)
        requires
            1 <= code <= 6,
            h == 0 || h == 0x10,
    ;
    assert(spec_kind_from_code(code) == c.kind);
}

impl Cell {
    /// the tail this cell points at, when it is a head at the given index:
    /// a triple stacked head is its own tail
    pub fn get_tail_position(&self, ci: CellIndex) -> (r: Option<CellIndex>)
        ensures
            r == self.spec_tail_position(ci),
    {
        if self.is_head() {
            if self.is_triple_stacked_piece() {
                Some(ci)
            } else {
                Some(self.idx)
            }
        } else {
            None
        }
    }

    /// The tail link of a head cell standing at `ci`.
    pub open spec fn spec_tail_position(self, ci: CellIndex) -> Option<CellIndex> {
        if self.kind == CellKind::TripleStacked {
            Some(ci)
        } else if self.kind == CellKind::Head {
            Some(self.idx)
        } else {
            None
        }
    }

    /// pack this cell into a 32-bit word, for fixtures and debugging
    pub fn pack_as_u32(&self) -> (r: u32)
        ensures
            r == spec_pack_cell(*self),
    {
        let code: u8 = match self.kind {
            CellKind::BodyPiece => 1,
            CellKind::DoubleStacked => 2,
            CellKind::TripleStacked => 3,
            CellKind::Food => 4,
            CellKind::Empty => 5,
            CellKind::Head => 6,
        };
        let flags: u8 = code | (if self.hazard {
            0x10
        } else {
            0
        });
        flags as u32 | ((self.id.0 as u32) << 8) | ((self.idx.0 as u32) << 16)
    }

    /// unpack a cell from a 32-bit word
    pub fn from_u32(value: u32) -> (r: Cell)
        ensures
            r == spec_unpack_cell(value),
    {
        let code: u8 = (value & 0x07) as u8;
        let kind = if code == 1 {
            CellKind::BodyPiece
        } else if code == 2 {
            CellKind::DoubleStacked
        } else if code == 3 {
            CellKind::TripleStacked
        } else if code == 4 {
            CellKind::Food
        } else if code == 6 {
            CellKind::Head
        } else {
            CellKind::Empty
        };
        let hazard = value & 0x10 != 0;
        let id = SnakeId(((value >> 8) & 0xff) as u8);
        assert((value >> 16) & 0xffff <= 0xffff) by (bit_vector);
        let idx = CellIndex(((value >> 16) & 0xffff) as u16);
        Cell { kind, hazard, id, idx }
    }

    /// whether nothing stands on this square
    pub fn is_empty(&self) -> (r: bool)
        ensures
            r == (self.kind == CellKind::Empty),
    {
        matches!(self.kind, CellKind::Empty)
    }

    /// The next cell toward the head, on body and double stacked pieces.
    pub open spec fn spec_next_index(self) -> Option<CellIndex> {
        if self.kind == CellKind::BodyPiece || self.kind == CellKind::DoubleStacked {
            Some(self.idx)
        } else {
            None
        }
    }

    /// the next cell toward the head, on body and double stacked pieces
    pub fn get_next_index(&self) -> (r: Option<CellIndex>)
        ensures
            r == self.spec_next_index(),
    {
        if self.is_snake_body_piece() || self.is_double_stacked_piece() {
            Some(self.idx)
        } else {
            None
        }
    }

    /// whether this square holds food
    pub fn is_food(&self) -> (r: bool)
        ensures
            r == (self.kind == CellKind::Food),
    {
        matches!(self.kind, CellKind::Food)
    }

    /// mark this square as hazardous, whatever it holds
    pub fn set_hazard(&mut self)
        ensures
            *final(self) == (Cell { hazard: true, ..*old(self) }),
    {
        self.hazard = true;
    }

    /// clear the hazard mark, whatever the square holds
    pub fn clear_hazard(&mut self)
        ensures
            *final(self) == (Cell { hazard: false, ..*old(self) }),
    {
        self.hazard = false;
    }

    /// whether this square is hazardous
    pub fn is_hazard(&self) -> (r: bool)
        ensures
            r == self.hazard,
    {
        self.hazard
    }

    /// Whether this square holds any body segment, stacked or not.
    pub open spec fn spec_is_body_segment(self) -> bool {
        self.kind == CellKind::BodyPiece || self.kind == CellKind::DoubleStacked || self.kind
            == CellKind::TripleStacked
    }

    /// whether this square holds any body segment, stacked or not
    pub fn is_body_segment(&self) -> (r: bool)
        ensures
            r == self.spec_is_body_segment(),
    {
        self.is_snake_body_piece() || self.is_double_stacked_piece()
            || self.is_triple_stacked_piece()
    }

    /// Whether an agent's head stands here; a triple stacked square is its
    /// own head.
    pub open spec fn spec_is_head(self) -> bool {
        self.kind == CellKind::Head || self.kind == CellKind::TripleStacked
    }

    /// whether an agent's head stands here, counting triple stacked squares
    pub fn is_head(&self) -> (r: bool)
        ensures
            r == self.spec_is_head(),
    {
        matches!(self.kind, CellKind::Head) || self.is_triple_stacked_piece()
    }

    /// resets this square to empty, preserving its hazard mark
    pub fn remove(&mut self)
        ensures
            *final(self) == (Cell {
                kind: CellKind::Empty,
                hazard: old(self).hazard,
                id: SnakeId(0),
                idx: CellIndex(0),
            }),
    {
        self.kind = CellKind::Empty;
        self.id = SnakeId(0);
        self.idx = CellIndex(0);
    }

    /// whether two or three segments stand on this square
    pub fn is_stacked(&self) -> (r: bool)
        ensures
            r == (self.kind == CellKind::DoubleStacked || self.kind == CellKind::TripleStacked),
    {
        self.is_double_stacked_piece() || self.is_triple_stacked_piece()
    }

    /// a fresh empty, non-hazardous square
    pub fn empty() -> (r: Cell)
        ensures
            r == (Cell { kind: CellKind::Empty, hazard: false, id: SnakeId(0), idx: CellIndex(0) }),
    {
        Cell { kind: CellKind::Empty, hazard: false, id: SnakeId(0), idx: CellIndex(0) }
    }

    /// a fresh head square for the given agent, linking to its tail
    pub fn make_snake_head(sid: SnakeId, tail_index: CellIndex) -> (r: Cell)
        ensures
            r == (Cell { kind: CellKind::Head, hazard: false, id: sid, idx: tail_index }),
    {
        Cell { kind: CellKind::Head, hazard: false, id: sid, idx: tail_index }
    }

    /// a fresh body square for the given agent, linking toward its head
    pub fn make_body_piece(sid: SnakeId, next_index: CellIndex) -> (r: Cell)
        ensures
            r == (Cell { kind: CellKind::BodyPiece, hazard: false, id: sid, idx: next_index }),
    {
        Cell { kind: CellKind::BodyPiece, hazard: false, id: sid, idx: next_index }
    }

    /// a fresh double stacked square for the given agent
    pub fn make_double_stacked_piece(sid: SnakeId, next_index: CellIndex) -> (r: Cell)
        ensures
            r == (Cell { kind: CellKind::DoubleStacked, hazard: false, id: sid, idx: next_index }),
    {
        Cell { kind: CellKind::DoubleStacked, hazard: false, id: sid, idx: next_index }
    }

    /// a fresh triple stacked square for the given agent
    pub fn make_triple_stacked_piece(sid: SnakeId) -> (r: Cell)
        ensures
            r == (Cell { kind: CellKind::TripleStacked, hazard: false, id: sid, idx: CellIndex(0) }),
    {
        Cell { kind: CellKind::TripleStacked, hazard: false, id: sid, idx: CellIndex(0) }
    }

    /// whether exactly one plain body segment stands here
    pub fn is_snake_body_piece(&self) -> (r: bool)
        ensures
            r == (self.kind == CellKind::BodyPiece),
    {
        matches!(self.kind, CellKind::BodyPiece)
    }

    /// whether exactly two segments stand here
    pub fn is_double_stacked_piece(&self) -> (r: bool)
        ensures
            r == (self.kind == CellKind::DoubleStacked),
    {
        matches!(self.kind, CellKind::DoubleStacked)
    }

    /// whether exactly three segments stand here
    pub fn is_triple_stacked_piece(&self) -> (r: bool)
        ensures
            r == (self.kind == CellKind::TripleStacked),
    {
        matches!(self.kind, CellKind::TripleStacked)
    }

    /// whether this square holds any body segment; same as `is_body_segment`
    pub fn is_body(&self) -> (r: bool)
        ensures
            r == self.spec_is_body_segment(),
    {
        self.is_body_segment()
    }

    /// turn this square into food, preserving its hazard mark
    pub fn set_food(&mut self)
        ensures
            *final(self) == (Cell { kind: CellKind::Food, ..*old(self) }),
    {
        self.kind = CellKind::Food;
    }

    /// turn this square into the given agent's head, preserving its hazard mark
    pub fn set_head(&mut self, sid: SnakeId, tail_index: CellIndex)
        ensures
            *final(self) == (Cell {
                kind: CellKind::Head,
                hazard: old(self).hazard,
                id: sid,
                idx: tail_index,
            }),
    {
        self.kind = CellKind::Head;
        self.id = sid;
        self.idx = tail_index;
    }

    /// turn this square into a body piece of the given agent, preserving its
    /// hazard mark
    pub fn set_body_piece(&mut self, sid: SnakeId, next_pos: CellIndex)
        ensures
            *final(self) == (Cell {
                kind: CellKind::BodyPiece,
                hazard: old(self).hazard,
                id: sid,
                idx: next_pos,
            }),
    {
        self.kind = CellKind::BodyPiece;
        self.id = sid;
        self.idx = next_pos;
    }

    /// turn this square into a double stacked piece of the given agent,
    /// preserving its hazard mark
    pub fn set_double_stacked(&mut self, sid: SnakeId, next_pos: CellIndex)
        ensures
            *final(self) == (Cell {
                kind: CellKind::DoubleStacked,
                hazard: old(self).hazard,
                id: sid,
                idx: next_pos,
            }),
    {
        self.kind = CellKind::DoubleStacked;
        self.id = sid;
        self.idx = next_pos;
    }

    /// The owner of this square, on snake kinds.
    pub open spec fn spec_snake_id(self) -> Option<SnakeId> {
        if self.spec_is_body_segment() || self.spec_is_head() {
            Some(self.id)
        } else {
            None
        }
    }

    /// the agent owning this square, when a snake stands on it
    pub fn get_snake_id(&self) -> (r: Option<SnakeId>)
        ensures
            r == self.spec_snake_id(),
    {
        if self.is_body_segment() || self.is_head() {
            Some(self.id)
        } else {
            None
        }
    }

    /// the raw link index stored on this square
    pub fn get_idx(&self) -> (r: CellIndex)
        ensures
            r == self.idx,
    {
        self.idx
    }
}

} // verus!
