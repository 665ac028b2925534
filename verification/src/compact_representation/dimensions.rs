//! The board shapes the engine can run on.
//!
//! Some shapes are more compact than others, but they are also more
//! specialized. [Square] holds only the width and assumes the height
//! matches; [Fixed] is a compile-time size; [Custom] stores both sides;
//! [FixedWithStoredWidth] keeps a wider stride for cheaper indexing.
use vstd::prelude::*;

verus! {

/// What every board shape must tell the engine: its width, its height and
/// the stride positions are stored with.
pub trait Dimensions: Sized + Copy {
    /// The width this shape reports.
    spec fn spec_width(self) -> u8;

    /// The height this shape reports.
    spec fn spec_height(self) -> u8;

    /// The stride this shape stores positions with; at least the width.
    spec fn spec_stored_width(self) -> u8;

    /// Which width and height pairs this shape can hold.
    spec fn spec_valid(width: u8, height: u8) -> bool;

    /// convert from a width and a height to this shape
    fn from_dimensions(width: u8, height: u8) -> (r: Self)
        requires
            Self::spec_valid(width, height),
        ensures
            r.spec_width() == width,
            r.spec_height() == height,
    ;

    /// the width of the board
    fn actual_width(&self) -> (r: u8)
        ensures
            r == self.spec_width(),
    ;

    /// the stride used to store positions; may exceed the width so that
    /// indexing can use cheaper arithmetic
    fn stored_width(&self) -> (r: u8)
        ensures
            r == self.spec_stored_width(),
    ;

    /// the height of the board
    fn height(&self) -> (r: u8)
        ensures
            r == self.spec_height(),
    ;
}

/// A square board: only the width is stored and the height matches it.
#[derive(Debug, Clone, Copy, PartialEq, Eq, Hash, Structural)]
pub struct Square {
    /// the width, and equally the height
    pub width: u8,
}

impl Dimensions for Square {
    open spec fn spec_width(self) -> u8 {
        self.width
    }

    open spec fn spec_height(self) -> u8 {
        self.width
    }

    open spec fn spec_stored_width(self) -> u8 {
        self.width
    }

    open spec fn spec_valid(width: u8, height: u8) -> bool {
        width == height
    }

    fn from_dimensions(width: u8, height: u8) -> Self {
        Square { width }
    }

    fn actual_width(&self) -> u8 {
        self.width
    }

    fn stored_width(&self) -> u8 {
        self.width
    }

    fn height(&self) -> u8 {
        self.width
    }
}

/// A fixed size board, with both sides known at compile time.
#[derive(Debug, Clone, Copy, PartialEq, Eq)]
pub struct Fixed<const W: u8, const H: u8>;

impl<const W: u8, const H: u8> Dimensions for Fixed<W, H> {
    open spec fn spec_width(self) -> u8 {
        W
    }

    open spec fn spec_height(self) -> u8 {
        H
    }

    open spec fn spec_stored_width(self) -> u8 {
        W
    }

    open spec fn spec_valid(width: u8, height: u8) -> bool {
        width == W && height == H
    }

    fn from_dimensions(width: u8, height: u8) -> Self {
        Fixed
    }

    fn actual_width(&self) -> u8 {
        W
    }

    fn stored_width(&self) -> u8 {
        W
    }

    fn height(&self) -> u8 {
        H
    }
}

/// Alias for a [Fixed] board at the height and width of the arcade maze map.
pub type ArcadeMaze = Fixed<19, 21>;

/// A fully custom board shape, storing width and height separately.
#[derive(Debug, Clone, Copy, PartialEq, Eq, Hash, Structural)]
pub struct Custom {
    /// the width
    pub width: u8,
    /// the height
    pub height: u8,
}

impl Dimensions for Custom {
    open spec fn spec_width(self) -> u8 {
        self.width
    }

    open spec fn spec_height(self) -> u8 {
        self.height
    }

    open spec fn spec_stored_width(self) -> u8 {
        self.width
    }

    open spec fn spec_valid(width: u8, height: u8) -> bool {
        true
    }

    fn from_dimensions(width: u8, height: u8) -> Self {
        Custom { width, height }
    }

    fn actual_width(&self) -> u8 {
        self.width
    }

    fn stored_width(&self) -> u8 {
        self.width
    }

    fn height(&self) -> u8 {
        self.height
    }
}

/// A fixed size board whose storage stride differs from its width, so that
/// position arithmetic can use shifts instead of multiplication.
#[derive(Debug, Clone, Copy, PartialEq, Eq)]
pub struct FixedWithStoredWidth<const W: u8, const H: u8, const STORED_W: u8>;

impl<const W: u8, const H: u8, const STORED_W: u8> Dimensions for FixedWithStoredWidth<
    W,
    H,
    STORED_W,
> {
    open spec fn spec_width(self) -> u8 {
        W
    }

    open spec fn spec_height(self) -> u8 {
        H
    }

    open spec fn spec_stored_width(self) -> u8 {
        STORED_W
    }

    open spec fn spec_valid(width: u8, height: u8) -> bool {
        width == W && height == H
    }

    fn from_dimensions(width: u8, height: u8) -> Self {
        FixedWithStoredWidth
    }

    fn actual_width(&self) -> u8 {
        W
    }

    fn stored_width(&self) -> u8 {
        STORED_W
    }

    fn height(&self) -> u8 {
        H
    }
}

} // verus!
