//! A compact board representation that is efficient for simulation.
pub mod cell;
pub mod cell_board;
pub mod convert;
pub mod dimensions;
pub mod eval;
pub mod simulate;
pub mod standard;
pub mod wrapped;

pub use self::cell::{Cell, CellIndex, CellKind};

use vstd::prelude::*;

verus! {

/// A cell board for a bounded-geometry game.
pub type StandardCellBoard = standard::CellBoard;

/// A cell board for a wrapped game.
pub type WrappedCellBoard = wrapped::CellBoard;

} // verus!
