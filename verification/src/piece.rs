//! The two colours.

use vstd::prelude::*;

verus! {

/// The colour of a piece, and so also the name of a player.
#[derive(Clone, Copy, Debug, PartialEq, Eq, Structural)]
pub enum Piece {
    White,
    Black,
}

impl Piece {
    /// The opposite colour.
    pub open spec fn opponent(self) -> Piece {
        match self {
            Piece::White => Piece::Black,
            Piece::Black => Piece::White,
        }
    }

    /// Returns the opposite colour.
    pub fn other(&self) -> (opposite: Piece)
        ensures
            opposite == self.opponent(),
    {
        match self {
            Piece::White => Piece::Black,
            Piece::Black => Piece::White,
        }
    }
}

} // verus!
