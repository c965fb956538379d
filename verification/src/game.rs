//! The rules of play: a board, whose turn it is, and which moves count.

use vstd::prelude::*;
use crate::board::Board;
use crate::grid::{after_move, cell_at, count_of, initial_cells};
use crate::moves::Move;
use crate::piece::Piece;
use crate::position::{lemma_offset_bijective, SquarePosition};

verus! {

/// A game in progress. `turn` is the colour that moves next: it changes
/// with every move that is carried out, and at no other time.
///
/// The game is over when the board is full, and the winner then is the
/// board's majority, if there is one. A player without a legal move while
/// the board has empty squares is not dealt with here.
pub struct Atars {
    pub board: Board,
    pub turn: Piece,
}

impl Atars {
    /// Whether the player to move may play `mv`: the piece travels at most
    /// two squares, it is the mover's own, and it lands on an empty square.
    pub open spec fn valid_move(self, mv: Move) -> bool {
        &&& mv.distance_spec() <= 2
        &&& self.board.cell(mv.from) == Some(self.turn)
        &&& self.board.cell(mv.to).is_none()
    }

    /// The grid after `mv` has been submitted: moved on if `mv` is legal,
    /// unchanged if not.
    pub open spec fn cells_after(self, mv: Move) -> Seq<Option<Piece>> {
        if self.valid_move(mv) {
            after_move(self.board@, mv)
        } else {
            self.board@
        }
    }

    /// Whose turn it is after `mv` has been submitted: the opponent's if
    /// `mv` is legal, still the same player's if not.
    pub open spec fn turn_after(self, mv: Move) -> Piece {
        if self.valid_move(mv) {
            self.turn.opponent()
        } else {
            self.turn
        }
    }

    /// Starts a game: the four corner pieces are set, and White moves first.
    pub fn new() -> (game: Atars)
        ensures
            game.board@ == initial_cells(),
            count_of(game.board@, Piece::White) == 2,
            count_of(game.board@, Piece::Black) == 2,
            game.turn == Piece::White,
    {
        Atars { board: Board::new(), turn: Piece::White }
    }

    /// Returns whether the player to move may play `move_`.
    pub fn is_valid_move(&self, move_: &Move) -> (valid: bool)
        requires
            move_.on_board(),
        ensures
            valid == self.valid_move(*move_),
    {
        move_.distance() <= 2 && self.board[move_.from] == Some(self.turn)
            && self.board[move_.to].is_none()
    }

    /// Plays `move_` if it is legal, and then passes the turn. An illegal
    /// move is turned down without a reason: the game stays as it was and
    /// the result is `false`.
    pub fn perform_move(&mut self, move_: Move) -> (done_move: bool)
        requires
            move_.on_board(),
        ensures
            done_move == old(self).valid_move(move_),
            final(self).board@ == old(self).cells_after(move_),
            final(self).turn == old(self).turn_after(move_),
            !done_move ==> *final(self) == *old(self),
    {
        let done_move = self.is_valid_move(&move_) && self.board.perform_move(&move_);
        if done_move {
            self.turn = self.turn.other();
        }
        done_move
    }

    /// A legal move is a clone or a jump: its ends differ, since one holds
    /// the mover's piece and the other nothing.
    pub proof fn lemma_valid_move_distance(self, mv: Move)
        requires
            self.valid_move(mv),
        ensures
            mv.distance_spec() == 1 || mv.distance_spec() == 2,
    {
    }

    /// A legal move of distance 1 clones the piece: afterwards the mover
    /// holds both ends of the move and every square next to the destination
    /// that the opponent held, each other square holds what it held, and it
    /// is the opponent's turn.
    pub proof fn lemma_clone_move(self, mv: Move)
        requires
            mv.on_board(),
            self.valid_move(mv),
            mv.distance_spec() == 1,
        ensures
            cell_at(self.cells_after(mv), mv.from) == Some(self.turn),
            cell_at(self.cells_after(mv), mv.to) == Some(self.turn),
            forall|q: SquarePosition|
                q.on_board() ==> #[trigger] cell_at(self.cells_after(mv), q) == if q == mv.to {
                    Some(self.turn)
                } else if mv.to.distance_spec(q) == 1 && self.board.cell(q) == Some(
                    self.turn.opponent(),
                ) {
                    Some(self.turn)
                } else {
                    self.board.cell(q)
                },
            self.turn_after(mv) == self.turn.opponent(),
    {
        assert forall|q: SquarePosition| q.on_board() implies #[trigger] cell_at(
            self.cells_after(mv),
            q,
        ) == if q == mv.to {
            Some(self.turn)
        } else if mv.to.distance_spec(q) == 1 && self.board.cell(q) == Some(
            self.turn.opponent(),
        ) {
            Some(self.turn)
        } else {
            self.board.cell(q)
        } by {
            lemma_offset_bijective(q, q.offset());
            lemma_offset_bijective(mv.to, mv.to.offset());
        }
        lemma_offset_bijective(mv.from, mv.from.offset());
    }

    /// A legal move of distance 2 relocates the piece: afterwards the
    /// origin is empty, the mover holds the destination and every square
    /// next to it that the opponent held, each other square holds what it
    /// held, and it is the opponent's turn.
    pub proof fn lemma_jump_move(self, mv: Move)
        requires
            mv.on_board(),
            self.valid_move(mv),
            mv.distance_spec() == 2,
        ensures
            cell_at(self.cells_after(mv), mv.from).is_none(),
            cell_at(self.cells_after(mv), mv.to) == Some(self.turn),
            forall|q: SquarePosition|
                q.on_board() ==> #[trigger] cell_at(self.cells_after(mv), q) == if q == mv.from {
                    None
                } else if q == mv.to {
                    Some(self.turn)
                } else if mv.to.distance_spec(q) == 1 && self.board.cell(q) == Some(
                    self.turn.opponent(),
                ) {
                    Some(self.turn)
                } else {
                    self.board.cell(q)
                },
            self.turn_after(mv) == self.turn.opponent(),
    {
        assert forall|q: SquarePosition| q.on_board() implies #[trigger] cell_at(
            self.cells_after(mv),
            q,
        ) == if q == mv.from {
            None
        } else if q == mv.to {
            Some(self.turn)
        } else if mv.to.distance_spec(q) == 1 && self.board.cell(q) == Some(
            self.turn.opponent(),
        ) {
            Some(self.turn)
        } else {
            self.board.cell(q)
        } by {
            lemma_offset_bijective(q, q.offset());
            lemma_offset_bijective(mv.to, mv.to.offset());
            lemma_offset_bijective(mv.from, mv.from.offset());
        }
        lemma_offset_bijective(mv.from, mv.from.offset());
        lemma_offset_bijective(mv.to, mv.to.offset());
    }

    /// A move from a square that does not hold the mover's piece, onto an
    /// occupied square, or over a distance of more than 2 changes neither
    /// the grid nor the turn.
    pub proof fn lemma_illegal_move_rejected(self, mv: Move)
        requires
            self.board.cell(mv.from) != Some(self.turn) || self.board.cell(mv.to).is_some()
                || mv.distance_spec() > 2,
        ensures
            !self.valid_move(mv),
            self.cells_after(mv) == self.board@,
            self.turn_after(mv) == self.turn,
    {
    }
}

} // verus!
