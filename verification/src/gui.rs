//! What a click on a square of the board does: the first click picks one
//! of the mover's pieces, the second names where it should go.

use vstd::prelude::*;
use crate::grid::initial_cells;
use crate::moves::Move;
use crate::piece::Piece;
use crate::position::SquarePosition;

verus! {

/// A game together with the square that the player to move has picked, if
/// any.
pub struct Atars {
    pub game: crate::game::Atars,
    pub selected: Option<SquarePosition>,
}

impl Atars {
    /// A picked square lies on the board.
    pub open spec fn wf(self) -> bool {
        self.selected matches Some(pos) ==> pos.on_board()
    }

    /// Starts a game with nothing picked.
    pub fn new() -> (fresh: Atars)
        ensures
            fresh.wf(),
            fresh.game.board@ == initial_cells(),
            fresh.game.turn == Piece::White,
            fresh.selected.is_none(),
    {
        Atars { game: crate::game::Atars::new(), selected: None }
    }

    /// Takes a click on the square `pos`.
    ///
    /// With nothing picked, the click picks `pos` if it holds a piece of the
    /// player to move, and is ignored otherwise; the game is not touched.
    /// With a square picked, the click submits the move from there to `pos`
    /// to the game, which plays it or turns it down, and nothing is picked
    /// afterwards either way.
    pub fn handle_click(&mut self, pos: SquarePosition)
        requires
            pos.on_board(),
            old(self).wf(),
        ensures
            final(self).wf(),
            match old(self).selected {
                None => {
                    &&& final(self).game == old(self).game
                    &&& final(self).selected == if old(self).game.board.cell(pos) == Some(
                        old(self).game.turn,
                    ) {
                        Some(pos)
                    } else {
                        None
                    }
                },
                Some(old_pos) => {
                    &&& final(self).game.board@ == old(self).game.cells_after(
                        Move { from: old_pos, to: pos },
                    )
                    &&& final(self).game.turn == old(self).game.turn_after(
                        Move { from: old_pos, to: pos },
                    )
                    &&& final(self).selected.is_none()
                },
            },
    {
        match self.selected {
            None => {
                if self.game.board[pos] == Some(self.game.turn) {
                    self.selected = Some(pos);
                }
            },
            Some(old_pos) => {
                self.game.perform_move(Move::new(old_pos, pos));
                self.selected = None;
            },
        }
    }
}

} // verus!
