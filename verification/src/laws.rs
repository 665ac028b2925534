//! Laws the cell representation keeps by construction, stated once so
//! that callers can lean on them without unfolding the cell type.
use vstd::prelude::*;

use crate::compact_representation::cell::{Cell, CellKind};

verus! {

/// A square is never food and a snake piece at once: its kind is a single
/// tag, so food excludes heads and body segments by construction.
pub proof fn lemma_food_never_snake_piece(c: Cell)
    ensures
        !(c.kind == CellKind::Food && c.spec_is_body_segment()),
        !(c.kind == CellKind::Food && c.spec_is_head()),
{
}

/// The hazard mark coexists freely with every kind: marking or clearing
/// it never touches what the square holds.
pub proof fn lemma_hazard_orthogonal(c: Cell, hazard: bool)
    ensures
        (Cell { hazard, ..c }).kind == c.kind,
        (Cell { hazard, ..c }).id == c.id,
        (Cell { hazard, ..c }).idx == c.idx,
{
}

} // verus!
