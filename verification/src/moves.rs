//! A move: the square a piece leaves or copies itself from, and the square
//! it lands on.

use vstd::prelude::*;
use crate::position::SquarePosition;

verus! {

/// A move from one square to another. Whether it is legal depends on the
/// game it is submitted to.
#[derive(Clone, Copy, Debug, PartialEq, Eq, Structural)]
pub struct Move {
    pub from: SquarePosition,
    pub to: SquarePosition,
}

impl Move {
    /// Whether both ends of the move lie on the board.
    pub open spec fn on_board(self) -> bool {
        self.from.on_board() && self.to.on_board()
    }

    /// Chebyshev distance between the two ends: 1 for a clone, 2 for a jump.
    pub open spec fn distance_spec(self) -> int {
        self.from.distance_spec(self.to)
    }

    /// Names the move of the piece on `from` to `to`.
    pub fn new(from: SquarePosition, to: SquarePosition) -> (mv: Move)
        ensures
            mv.from == from,
            mv.to == to,
    {
        Move { from, to }
    }

    /// Returns the Chebyshev distance between the two ends of the move.
    pub fn distance(&self) -> (d: usize)
        ensures
            d == self.distance_spec(),
    {
        self.from.distance(&self.to)
    }
}

} // verus!
