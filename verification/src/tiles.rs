//! Squares of the board.

use vstd::prelude::*;

verus! {

/// The widest board that the engine's medium boards hold.
pub const MAX_SIDE_LEN: u8 = 11;

/// A square of the board, by row and column, both counted from 0.
#[derive(Clone, Copy, Debug, PartialEq, Eq, Hash, Structural)]
pub struct Tile {
    pub row: u8,
    pub col: u8,
}

impl Tile {
    /// The square at the given row and column.
    pub fn new(row: u8, col: u8) -> (t: Tile)
        ensures
            t == (Tile { row, col }),
    {
        Tile { row, col }
    }

    /// Whether the square lies on a board of the given side length.
    pub open spec fn spec_within(self, side_len: u8) -> bool {
        self.row < side_len && self.col < side_len
    }

    /// Whether the square lies on a board of the given side length.
    #[verifier::when_used_as_spec(spec_within)]
    pub fn within(self, side_len: u8) -> (r: bool)
        ensures
            r == self.spec_within(side_len),
    {
        self.row < side_len && self.col < side_len
    }

    /// Whether the two squares share a row or a column.
    pub open spec fn spec_in_line_with(self, other: Tile) -> bool {
        self.row == other.row || self.col == other.col
    }

    /// Whether the two squares share a row or a column.
    #[verifier::when_used_as_spec(spec_in_line_with)]
    pub fn in_line_with(self, other: Tile) -> (r: bool)
        ensures
            r == self.spec_in_line_with(other),
    {
        self.row == other.row || self.col == other.col
    }
}

} // verus!
