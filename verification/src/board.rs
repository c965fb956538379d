//! The board of a game: the 49 cells, and the operations that read and
//! change them. What each operation computes is defined in [`crate::grid`].

use vstd::prelude::*;
use core::ops::IndexMut;
use crate::grid::{
    after_move, adjacent_to, blank_squares, captured_around, cell_at, clone_onto, count_of, full,
    held_by, holding, initial_cells, lemma_initial_counts, lemma_neighbors_len,
    lemma_neighbors_members, majority_of, moves_of, neighbor_count, neighbors, occupied_in,
    piece_positions, reachable_by, sources, vacant_in, with_piece,
};
use crate::moves::Move;
use crate::piece::Piece;
use crate::position::{
    lemma_offset_bijective, position_at, scan_order, scan_position, SquarePosition, CELLS, SIDE,
};
use crate::seq_facts::{
    lemma_filter_ends, lemma_filter_first, lemma_filter_none, lemma_filter_step,
};

verus! {

/// Whether one of the first `k` squares of `squares` has its cell at index
/// `i`.
spec fn reached(squares: Seq<SquarePosition>, k: int, i: int) -> bool {
    exists|j: int| 0 <= j < k && (#[trigger] squares[j]).offset() == i
}

/// The grid of a game. Its cells change only through the board's own
/// operations.
pub struct Board {
    board: [Option<Piece>; 49],
}

impl View for Board {
    type V = Seq<Option<Piece>>;

    /// The 49 cells, the cell of square `(x, y)` at index `x + 7 * y`.
    open spec fn view(&self) -> Seq<Option<Piece>> {
        Seq::new(CELLS as nat, |i: int| self.content(i))
    }
}

impl core::ops::Index<SquarePosition> for Board {
    type Output = Option<Piece>;

    /// Returns what the cell of `pos` holds.
    fn index(&self, pos: SquarePosition) -> (cell: &Option<Piece>)
        ensures
            *cell == self.cell(pos),
    {
        let offset: usize = pos.x + pos.y * SIDE;
        &self.board[offset]
    }
}

impl vstd::std_specs::core::IndexSpecImpl<SquarePosition> for Board {
    /// Only squares of the board have a cell.
    open spec fn index_req(&self, index: &SquarePosition) -> bool {
        index.on_board()
    }
}

impl core::ops::IndexMut<SquarePosition> for Board {
    /// Hands out the cell of `pos` to be overwritten. No other cell
    /// changes.
    fn index_mut(&mut self, pos: SquarePosition) -> (cell: &mut Option<Piece>)
        requires
            pos.on_board(),
        ensures
            *cell == old(self).cell(pos),
            final(self)@ == old(self)@.update(pos.offset(), *final(cell)),
    {
        let offset: usize = pos.x + pos.y * SIDE;
        &mut self.board[offset]
    }
}

impl Clone for Board {
    /// Returns a board with the same cells, to try moves on.
    fn clone(&self) -> (copy: Board)
        ensures
            copy@ == self@,
    {
        Board { board: self.board }
    }
}

impl Board {
    /// What the cell of `pos` holds.
    pub open spec fn cell(self, pos: SquarePosition) -> Option<Piece> {
        cell_at(self@, pos)
    }

    /// What the cell with index `i` holds.
    pub closed spec fn content(self, i: int) -> Option<Piece> {
        self.board@[i]
    }

    /// Creates the board of a new game: two pieces of each colour in
    /// opposite corners, and 45 empty squares.
    pub fn new() -> (b: Board)
        ensures
            b@ == initial_cells(),
            count_of(b@, Piece::White) == 2,
            count_of(b@, Piece::Black) == 2,
    {
        proof {
            lemma_initial_counts();
        }
        let mut b = Board { board: [None; 49] };
        *b.index_mut(SquarePosition::new(0, 0)) = Some(Piece::Black);
        *b.index_mut(SquarePosition::new(6, 6)) = Some(Piece::Black);
        *b.index_mut(SquarePosition::new(0, 6)) = Some(Piece::White);
        *b.index_mut(SquarePosition::new(6, 0)) = Some(Piece::White);
        assert(b@ =~= initial_cells());
        b
    }

    /// Returns every square of the board in scan order.
    pub fn all_positions(&self) -> (squares: Vec<SquarePosition>)
        ensures
            squares@ == scan_order(),
    {
        let mut squares: Vec<SquarePosition> = Vec::new();
        let mut x: usize = 0;
        while x < SIDE
            invariant
                x <= SIDE,
                squares@.len() == 7 * x,
                forall|k: int| 0 <= k < squares@.len() ==> squares@[k] == scan_position(k),
            decreases SIDE - x,
        {
            let mut y: usize = 0;
            while y < SIDE
                invariant
                    x < SIDE,
                    y <= SIDE,
                    squares@.len() == 7 * x + y,
                    forall|k: int| 0 <= k < squares@.len() ==> squares@[k] == scan_position(k),
                decreases SIDE - y,
            {
                let pos = SquarePosition::new(x, y);
                squares.push(pos);
                y += 1;
            }
            x += 1;
        }
        squares
    }

    /// Returns the neighbours of `origin` on the board, in scan order: three
    /// for a corner, five along an edge, eight elsewhere.
    pub fn get_surrounding(&self, origin: SquarePosition) -> (squares: Vec<SquarePosition>)
        ensures
            squares@ == neighbors(origin),
            origin.on_board() ==> squares@.len() == neighbor_count(origin),
    {
        proof {
            if origin.on_board() {
                lemma_neighbors_len(origin);
            }
        }
        let all = self.all_positions();
        let mut squares: Vec<SquarePosition> = Vec::new();
        let mut k: usize = 0;
        proof {
            lemma_filter_ends(scan_order(), adjacent_to(origin));
        }
        while k < all.len()
            invariant
                k <= all.len(),
                all@ == scan_order(),
                squares@ == scan_order().take(k as int).filter(adjacent_to(origin)),
            decreases all.len() - k,
        {
            let pos = all[k];
            proof {
                lemma_filter_step(scan_order(), adjacent_to(origin), k as int);
            }
            if origin.distance(&pos) == 1 {
                squares.push(pos);
            }
            k += 1;
        }
        squares
    }

    /// Carries out the move on the board, without judging it: puts the piece
    /// of `move_.from` on `move_.to`, captures around `move_.to`, and empties
    /// `move_.from` if the move is a jump. Returns `false`, and changes
    /// nothing, exactly when `move_.from` is empty.
    pub fn perform_move(&mut self, move_: &Move) -> (moved: bool)
        requires
            move_.on_board(),
        ensures
            moved == old(self).cell(move_.from).is_some(),
            final(self)@ == after_move(old(self)@, *move_),
    {
        let p = self[move_.from];
        match p {
            None => false,
            Some(p) => {
                *self.index_mut(move_.to) = Some(p);
                self.turn_surrounding(p, move_.to);
                if move_.distance() == 2 {
                    *self.index_mut(move_.from) = None;
                }
                true
            },
        }
    }

    /// Turns every piece of the mover's opponent next to `pos` into a piece
    /// of the mover.
    pub fn turn_surrounding(&mut self, mover: Piece, pos: SquarePosition)
        ensures
            final(self)@ == captured_around(old(self)@, mover, pos),
    {
        let ghost before = self@;
        let around = self.get_surrounding(pos);
        let mut k: usize = 0;
        proof {
            lemma_neighbors_members(pos);
        }
        while k < around.len()
            invariant
                k <= around.len(),
                around@ == neighbors(pos),
                before.len() == CELLS,
                self@.len() == CELLS,
                forall|q: SquarePosition| #[trigger]
                    neighbors(pos).contains(q) <==> q.on_board() && pos.distance_spec(q) == 1,
                forall|i: int|
                    0 <= i < CELLS ==> #[trigger] self@[i] == if reached(around@, k as int, i)
                        && before[i] == Some(mover.opponent()) {
                        Some(mover)
                    } else {
                        before[i]
                    },
            decreases around.len() - k,
        {
            let near = around[k];
            assert(around@.contains(near));
            if self[near] == Some(mover.other()) {
                *self.index_mut(near) = Some(mover);
            }
            k += 1;
            proof {
                assert forall|i: int| 0 <= i < CELLS implies #[trigger] self@[i] == if reached(
                    around@,
                    k as int,
                    i,
                ) && before[i] == Some(mover.opponent()) {
                    Some(mover)
                } else {
                    before[i]
                } by {
                    if i == near.offset() {
                        assert(around@[k - 1].offset() == i);
                    } else {
                        if reached(around@, k as int, i) {
                            let j = choose|j: int|
                                0 <= j < k && (#[trigger] around@[j]).offset() == i;
                            assert(j < k - 1);
                            assert(reached(around@, k - 1, i));
                        }
                    }
                }
            }
        }
        proof {
            assert forall|i: int| 0 <= i < CELLS implies self@[i] == captured_around(
                before,
                mover,
                pos,
            )[i] by {
                let here = position_at(i);
                lemma_offset_bijective(here, i);
                if reached(around@, k as int, i) {
                    let j = choose|j: int| 0 <= j < k && (#[trigger] around@[j]).offset() == i;
                    assert(around@.contains(around@[j]));
                    lemma_offset_bijective(around@[j], i);
                }
                if pos.distance_spec(here) == 1 {
                    assert(neighbors(pos).contains(here));
                    let j = choose|j: int| 0 <= j < around@.len() && around@[j] == here;
                    assert(around@[j].offset() == i);
                }
            }
            assert(self@ =~= captured_around(before, mover, pos));
        }
    }

    /// Returns whether no cell is empty.
    pub fn is_full(&self) -> (all_taken: bool)
        ensures
            all_taken == full(self@),
    {
        let mut i: usize = 0;
        while i < CELLS
            invariant
                i <= CELLS,
                self@.len() == CELLS,
                forall|j: int| 0 <= j < i ==> (#[trigger] self@[j]).is_some(),
            decreases CELLS - i,
        {
            if self.board[i].is_none() {
                assert(self@[i as int].is_none());
                return false;
            }
            i += 1;
        }
        true
    }

    /// Returns the colour with more pieces: `None` when both have as many.
    pub fn majority(&self) -> (leader: Option<Piece>)
        ensures
            leader == majority_of(self@),
    {
        let white = self.count(Piece::White);
        let black = self.count(Piece::Black);
        if white > black {
            Some(Piece::White)
        } else if white < black {
            Some(Piece::Black)
        } else {
            None
        }
    }

    /// Returns the number of cells that hold `piece`.
    pub fn count(&self, piece: Piece) -> (n: usize)
        ensures
            n == count_of(self@, piece),
            n <= CELLS,
    {
        let mut n: usize = 0;
        let mut i: usize = 0;
        proof {
            lemma_filter_ends(self@, holding(piece));
        }
        while i < CELLS
            invariant
                i <= CELLS,
                self@.len() == CELLS,
                n <= i,
                n == self@.take(i as int).filter(holding(piece)).len(),
            decreases CELLS - i,
        {
            proof {
                lemma_filter_step(self@, holding(piece), i as int);
            }
            if self.board[i] == Some(piece) {
                n += 1;
            }
            i += 1;
        }
        n
    }

    /// Returns the occupied squares in scan order, each with its piece.
    pub fn pieces(&self) -> (result: Vec<PiecePosition>)
        ensures
            result@ == piece_positions(self@),
    {
        let all = self.all_positions();
        let mut result: Vec<PiecePosition> = Vec::new();
        let mut k: usize = 0;
        proof {
            lemma_filter_ends(scan_order(), occupied_in(self@));
        }
        while k < all.len()
            invariant
                k <= all.len(),
                all@ == scan_order(),
                result@ == scan_order().take(k as int).filter(occupied_in(self@)).map_values(
                    with_piece(self@),
                ),
            decreases all.len() - k,
        {
            let pos = all[k];
            proof {
                lemma_filter_step(scan_order(), occupied_in(self@), k as int);
            }
            let ghost kept = scan_order().take(k as int).filter(occupied_in(self@));
            if let Some(piece) = self[pos] {
                result.push(PiecePosition { pos, piece });
                assert(kept.push(pos).map_values(with_piece(self@)) =~= kept.map_values(
                    with_piece(self@),
                ).push(with_piece(self@)(pos)));
            }
            k += 1;
        }
        result
    }

    /// Returns the empty squares in scan order.
    pub fn blank_positions(&self) -> (blanks: Vec<SquarePosition>)
        ensures
            blanks@ == blank_squares(self@),
    {
        let all = self.all_positions();
        let mut blanks: Vec<SquarePosition> = Vec::new();
        let mut k: usize = 0;
        proof {
            lemma_filter_ends(scan_order(), vacant_in(self@));
        }
        while k < all.len()
            invariant
                k <= all.len(),
                all@ == scan_order(),
                blanks@ == scan_order().take(k as int).filter(vacant_in(self@)),
            decreases all.len() - k,
        {
            let pos = all[k];
            proof {
                lemma_filter_step(scan_order(), vacant_in(self@), k as int);
            }
            if self[pos].is_none() {
                blanks.push(pos);
            }
            k += 1;
        }
        blanks
    }

    /// Returns the moves generated for `piece`: for each empty square in
    /// scan order that has a neighbour holding `piece`, the clone from the
    /// first such neighbour in scan order.
    pub fn get_moves(&self, piece: Piece) -> (result: Vec<Move>)
        ensures
            result@ == moves_of(self@, piece),
    {
        let blanks = self.blank_positions();
        let mut result: Vec<Move> = Vec::new();
        let mut t: usize = 0;
        proof {
            lemma_filter_ends(blanks@, reachable_by(self@, piece));
        }
        while t < blanks.len()
            invariant
                t <= blanks.len(),
                blanks@ == blank_squares(self@),
                result@ == blanks@.take(t as int).filter(reachable_by(self@, piece)).map_values(
                    clone_onto(self@, piece),
                ),
            decreases blanks.len() - t,
        {
            let to = blanks[t];
            let around = self.get_surrounding(to);
            let ghost kept = blanks@.take(t as int).filter(reachable_by(self@, piece));
            let ghost generated = result@;
            proof {
                lemma_filter_step(blanks@, reachable_by(self@, piece), t as int);
                lemma_neighbors_members(to);
                lemma_filter_none(around@, held_by(self@, piece));
            }
            let mut s: usize = 0;
            while s < around.len()
                invariant_except_break
                    s <= around.len(),
                    result@ == generated,
                    forall|j: int| 0 <= j < s ==> !held_by(self@, piece)(#[trigger] around@[j]),
                invariant
                    around@ == neighbors(to),
                    forall|q: SquarePosition| #[trigger]
                        neighbors(to).contains(q) <==> q.on_board() && to.distance_spec(q) == 1,
                    sources(self@, piece, to).len() == 0 <==> forall|j: int|
                        0 <= j < around@.len() ==> !held_by(self@, piece)(#[trigger] around@[j]),
                ensures
                    result@ == if sources(self@, piece, to).len() > 0 {
                        generated.push(clone_onto(self@, piece)(to))
                    } else {
                        generated
                    },
                decreases around.len() - s,
            {
                let from = around[s];
                assert(around@.contains(from));
                if self[from] == Some(piece) {
                    proof {
                        lemma_filter_first(around@, held_by(self@, piece), s as int);
                    }
                    result.push(Move::new(from, to));
                    break;
                }
                s += 1;
            }
            proof {
                if sources(self@, piece, to).len() > 0 {
                    assert(kept.push(to).map_values(clone_onto(self@, piece)) =~= kept.map_values(
                        clone_onto(self@, piece),
                    ).push(clone_onto(self@, piece)(to)));
                }
            }
            t += 1;
        }
        result
    }
}

/// An occupied square together with the piece on it: what a view of the
/// board needs to draw.
#[derive(Clone, Copy, Debug, PartialEq, Eq, Structural)]
pub struct PiecePosition {
    pub pos: SquarePosition,
    pub piece: Piece,
}

} // verus!
