//! The computer player: looks one move ahead and takes what leaves it with
//! the most pieces.

use vstd::prelude::*;
use crate::board::Board;
use crate::game::Atars;
use crate::grid::{after_move, cell_at, count_of, lemma_moves_are_clones, moves_of};
use crate::moves::Move;
use crate::piece::Piece;

verus! {

/// What a move is worth to `turn`: the number of its pieces on the grid once
/// the move is made, the captured ones included.
pub open spec fn score(cells: Seq<Option<Piece>>, turn: Piece, mv: Move) -> nat {
    count_of(after_move(cells, mv), turn)
}

/// The index of the best of the candidates, where `worth[i]` is what the
/// candidate with index `i` is worth: of the highest worth, and among those
/// the last.
pub open spec fn last_best(worth: Seq<nat>) -> int
    decreases worth.len(),
{
    if worth.len() <= 1 {
        0
    } else {
        let before = last_best(worth.drop_last());
        if worth.last() >= worth[before] {
            worth.len() - 1
        } else {
            before
        }
    }
}

/// The rating of moves: what each is worth to `turn`.
pub open spec fn rating(cells: Seq<Option<Piece>>, turn: Piece) -> spec_fn(Move) -> nat {
    |mv: Move| score(cells, turn, mv)
}

/// What each of the moves generated for `turn` is worth, in the order in
/// which they are generated.
pub open spec fn scores(cells: Seq<Option<Piece>>, turn: Piece) -> Seq<nat> {
    moves_of(cells, turn).map_values(rating(cells, turn))
}

/// The move chosen for `turn`. It is a function of the grid and the colour
/// alone: the same position always gets the same answer.
pub open spec fn choice(cells: Seq<Option<Piece>>, turn: Piece) -> Move {
    moves_of(cells, turn)[last_best(scores(cells, turn))]
}

/// No candidate is worth more than the best one, and every later one is
/// worth less.
pub proof fn lemma_last_best(worth: Seq<nat>)
    requires
        worth.len() > 0,
    ensures
        0 <= last_best(worth) < worth.len(),
        forall|j: int| 0 <= j < worth.len() ==> #[trigger] worth[j] <= worth[last_best(worth)],
        forall|j: int|
            last_best(worth) < j < worth.len() ==> #[trigger] worth[j] < worth[last_best(worth)],
    decreases worth.len(),
{
    if worth.len() > 1 {
        let front = worth.drop_last();
        lemma_last_best(front);
        assert forall|j: int| 0 <= j < worth.len() implies #[trigger] worth[j] <= worth[last_best(
            worth,
        )] by {
            if j < front.len() {
                assert(front[j] == worth[j]);
            }
        }
        assert forall|j: int| last_best(worth) < j < worth.len() implies #[trigger] worth[j]
            < worth[last_best(worth)] by {
            if j < front.len() {
                assert(front[j] == worth[j]);
            }
        }
    }
}

/// The chosen move is one of the generated moves, hence a legal clone for
/// `turn`. None of the generated moves leaves `turn` with more pieces, and
/// each one generated after it leaves `turn` with fewer: among equally good
/// moves the one generated last is chosen.
pub proof fn lemma_choice_is_greedy(cells: Seq<Option<Piece>>, turn: Piece)
    requires
        moves_of(cells, turn).len() > 0,
    ensures
        exists|i: int|
            {
                &&& 0 <= i < moves_of(cells, turn).len()
                &&& #[trigger] moves_of(cells, turn)[i] == choice(cells, turn)
                &&& forall|j: int|
                    0 <= j < moves_of(cells, turn).len() ==> score(
                        cells,
                        turn,
                        #[trigger] moves_of(cells, turn)[j],
                    ) <= score(cells, turn, choice(cells, turn))
                &&& forall|j: int|
                    i < j < moves_of(cells, turn).len() ==> score(
                        cells,
                        turn,
                        #[trigger] moves_of(cells, turn)[j],
                    ) < score(cells, turn, choice(cells, turn))
            },
        choice(cells, turn).on_board(),
        choice(cells, turn).distance_spec() == 1,
        cell_at(cells, choice(cells, turn).from) == Some(turn),
        cell_at(cells, choice(cells, turn).to).is_none(),
{
    let moves = moves_of(cells, turn);
    let worth = scores(cells, turn);
    let best = last_best(worth);
    lemma_last_best(worth);
    lemma_moves_are_clones(cells, turn, best);
    assert(moves[best] == choice(cells, turn));
    assert forall|j: int| 0 <= j < moves.len() implies score(cells, turn, #[trigger] moves[j])
        <= score(cells, turn, choice(cells, turn)) by {
        assert(worth[j] <= worth[best]);
    }
    assert forall|j: int| best < j < moves.len() implies score(cells, turn, #[trigger] moves[j])
        < score(cells, turn, choice(cells, turn)) by {
        assert(worth[j] < worth[best]);
    }
}

/// The move chosen for the player to move is legal in the game: it can be
/// submitted like any other move, and will be played.
pub proof fn lemma_choice_is_legal(game: Atars)
    requires
        moves_of(game.board@, game.turn).len() > 0,
    ensures
        choice(game.board@, game.turn).on_board(),
        game.valid_move(choice(game.board@, game.turn)),
{
    lemma_choice_is_greedy(game.board@, game.turn);
}

/// The computer player. It keeps nothing between two calls.
pub struct ComputerPlayer {}

impl ComputerPlayer {
    /// Creates the computer player.
    pub fn new() -> ComputerPlayer {
        ComputerPlayer {}
    }

    /// Returns the move for `turn` on `board`: each generated move is tried
    /// on a copy of the board, and the one after which `turn` has the most
    /// pieces is returned, the last such one if several are as good. The
    /// board itself is left alone.
    ///
    /// There has to be a generated move to choose from.
    pub fn get_move(&self, board: &Board, turn: Piece) -> (mv: Move)
        requires
            moves_of(board@, turn).len() > 0,
        ensures
            mv == choice(board@, turn),
    {
        let moves = board.get_moves(turn);
        let mut best: usize = 0;
        let mut best_score: usize = 0;
        let mut i: usize = 0;
        while i < moves.len()
            invariant
                i <= moves.len(),
                moves@ == moves_of(board@, turn),
                moves@.len() > 0,
                i > 0 ==> best == last_best(scores(board@, turn).take(i as int)),
                i > 0 ==> best < i,
                i > 0 ==> best_score == scores(board@, turn)[best as int],
            decreases moves.len() - i,
        {
            proof {
                lemma_moves_are_clones(board@, turn, i as int);
                let worth = scores(board@, turn);
                assert(worth.take(i + 1).drop_last() =~= worth.take(i as int));
            }
            let mut hypo_board = board.clone();
            hypo_board.perform_move(&moves[i]);
            let reached = hypo_board.count(turn);
            if i == 0 || reached >= best_score {
                best = i;
                best_score = reached;
            }
            i += 1;
        }
        proof {
            let worth = scores(board@, turn);
            assert(worth.take(worth.len() as int) =~= worth);
        }
        moves[best]
    }
}

} // verus!
