//! The board as a mathematical object: a sequence of 49 cells, the cell of
//! square `(x, y)` at index `x + 7 * y`. Every query and every change of the
//! board is defined here as a function of that sequence, followed by the
//! laws that hold of these functions.

use vstd::prelude::*;
use crate::board::PiecePosition;
use crate::moves::Move;
use crate::piece::Piece;
use crate::position::{abs_diff, position_at, scan_order, SquarePosition, CELLS};
use crate::seq_facts::{
    lemma_filter_ends, lemma_filter_len_update, lemma_filter_members, lemma_filter_none,
    lemma_filter_step,
};

verus! {

/// What the cell of `pos` holds in a grid of cells.
pub open spec fn cell_at(cells: Seq<Option<Piece>>, pos: SquarePosition) -> Option<Piece> {
    cells[pos.offset()]
}

/// What the cell of `pos` holds at the start of a game: Black in the corners
/// (0,0) and (6,6), White in the corners (0,6) and (6,0), nothing elsewhere.
pub open spec fn initial_cell(pos: SquarePosition) -> Option<Piece> {
    if (pos.x == 0 && pos.y == 0) || (pos.x == 6 && pos.y == 6) {
        Some(Piece::Black)
    } else if (pos.x == 0 && pos.y == 6) || (pos.x == 6 && pos.y == 0) {
        Some(Piece::White)
    } else {
        None
    }
}

/// The grid at the start of a game.
pub open spec fn initial_cells() -> Seq<Option<Piece>> {
    Seq::new(CELLS as nat, |i: int| initial_cell(position_at(i)))
}

/// The test that a square is a neighbour of `origin`: any of the up to eight
/// squares at Chebyshev distance 1, diagonal ones included.
pub open spec fn adjacent_to(origin: SquarePosition) -> spec_fn(SquarePosition) -> bool {
    |pos: SquarePosition| origin.distance_spec(pos) == 1
}

/// The neighbours of `origin` on the board, in scan order.
pub open spec fn neighbors(origin: SquarePosition) -> Seq<SquarePosition> {
    scan_order().filter(adjacent_to(origin))
}

/// How many neighbours a square of the board has: 3 in a corner, 5 elsewhere
/// along an edge, 8 in the interior.
pub open spec fn neighbor_count(origin: SquarePosition) -> int {
    let in_end_column = origin.x == 0 || origin.x == 6;
    let in_end_row = origin.y == 0 || origin.y == 6;
    if in_end_column && in_end_row {
        3
    } else if in_end_column || in_end_row {
        5
    } else {
        8
    }
}

/// The grid after a capture around `center`: every neighbour of `center`
/// that held the opponent of `mover` now holds `mover`, and no other cell
/// has changed. Only the immediate neighbours turn; there is no chain.
pub open spec fn captured_around(
    cells: Seq<Option<Piece>>,
    mover: Piece,
    center: SquarePosition,
) -> Seq<Option<Piece>> {
    Seq::new(
        cells.len(),
        |i: int|
            if center.distance_spec(position_at(i)) == 1 && cells[i] == Some(mover.opponent()) {
                Some(mover)
            } else {
                cells[i]
            },
    )
}

/// The grid after the board has carried out `mv`.
///
/// With nothing on `mv.from` the grid stays as it is. Otherwise the piece is
/// put on `mv.to`, the capture around `mv.to` follows, and a move of
/// distance 2 then empties `mv.from`. Neither the distance nor what `mv.to`
/// held is checked here: that is the game's part.
pub open spec fn after_move(cells: Seq<Option<Piece>>, mv: Move) -> Seq<Option<Piece>> {
    match cells[mv.from.offset()] {
        None => cells,
        Some(piece) => {
            let landed = captured_around(cells.update(mv.to.offset(), Some(piece)), piece, mv.to);
            if mv.distance_spec() == 2 {
                landed.update(mv.from.offset(), None)
            } else {
                landed
            }
        },
    }
}

/// The test that a cell holds `piece`.
pub open spec fn holding(piece: Piece) -> spec_fn(Option<Piece>) -> bool {
    |cell: Option<Piece>| cell == Some(piece)
}

/// Number of cells that hold `piece`.
pub open spec fn count_of(cells: Seq<Option<Piece>>, piece: Piece) -> nat {
    cells.filter(holding(piece)).len()
}

/// The colour with more pieces on the grid, if there is one.
pub open spec fn majority_of(cells: Seq<Option<Piece>>) -> Option<Piece> {
    let white = count_of(cells, Piece::White);
    let black = count_of(cells, Piece::Black);
    if white > black {
        Some(Piece::White)
    } else if white < black {
        Some(Piece::Black)
    } else {
        None
    }
}

/// Whether no cell is empty.
pub open spec fn full(cells: Seq<Option<Piece>>) -> bool {
    forall|i: int| 0 <= i < cells.len() ==> (#[trigger] cells[i]).is_some()
}

/// The test that the cell of a square is empty.
pub open spec fn vacant_in(cells: Seq<Option<Piece>>) -> spec_fn(SquarePosition) -> bool {
    |pos: SquarePosition| cell_at(cells, pos).is_none()
}

/// The test that the cell of a square holds a piece.
pub open spec fn occupied_in(cells: Seq<Option<Piece>>) -> spec_fn(SquarePosition) -> bool {
    |pos: SquarePosition| cell_at(cells, pos).is_some()
}

/// The test that the cell of a square holds `piece`.
pub open spec fn held_by(cells: Seq<Option<Piece>>, piece: Piece) -> spec_fn(
    SquarePosition,
) -> bool {
    |pos: SquarePosition| cell_at(cells, pos) == Some(piece)
}

/// The empty squares, in scan order.
pub open spec fn blank_squares(cells: Seq<Option<Piece>>) -> Seq<SquarePosition> {
    scan_order().filter(vacant_in(cells))
}

/// Pairs a square with the piece on it; meant for occupied squares.
pub open spec fn with_piece(cells: Seq<Option<Piece>>) -> spec_fn(SquarePosition) -> PiecePosition {
    |pos: SquarePosition| PiecePosition { pos, piece: cell_at(cells, pos).unwrap() }
}

/// The occupied squares in scan order, each with its piece.
pub open spec fn piece_positions(cells: Seq<Option<Piece>>) -> Seq<PiecePosition> {
    scan_order().filter(occupied_in(cells)).map_values(with_piece(cells))
}

/// The neighbours of `to` that hold `piece`, in scan order: the squares from
/// which `piece` can clone itself onto `to`.
pub open spec fn sources(
    cells: Seq<Option<Piece>>,
    piece: Piece,
    to: SquarePosition,
) -> Seq<SquarePosition> {
    neighbors(to).filter(held_by(cells, piece))
}

/// The test that `piece` has a neighbour of a square to clone itself from.
pub open spec fn reachable_by(cells: Seq<Option<Piece>>, piece: Piece) -> spec_fn(
    SquarePosition,
) -> bool {
    |to: SquarePosition| sources(cells, piece, to).len() > 0
}

/// The move generated for a destination: from the first of its sources.
pub open spec fn clone_onto(cells: Seq<Option<Piece>>, piece: Piece) -> spec_fn(
    SquarePosition,
) -> Move {
    |to: SquarePosition| Move { from: sources(cells, piece, to)[0], to }
}

/// The moves generated for `piece`: one for each empty square that has a
/// neighbour holding `piece`, destinations in scan order, each from the
/// first such neighbour in scan order. All of them are clones; jumps are
/// legal but never generated.
pub open spec fn moves_of(cells: Seq<Option<Piece>>, piece: Piece) -> Seq<Move> {
    blank_squares(cells).filter(reachable_by(cells, piece)).map_values(clone_onto(cells, piece))
}

/// A square is among the neighbours of `origin` exactly when it lies on the
/// board at distance 1 from `origin`.
pub proof fn lemma_neighbors_members(origin: SquarePosition)
    ensures
        forall|pos: SquarePosition| #[trigger]
            neighbors(origin).contains(pos) <==> pos.on_board() && origin.distance_spec(pos) == 1,
{
    lemma_filter_members(scan_order(), adjacent_to(origin));
    assert forall|pos: SquarePosition| #[trigger]
        scan_order().contains(pos) <==> pos.on_board() by {
        if pos.on_board() {
            let k = pos.x * 7 + pos.y;
            assert(scan_order()[k] == pos);
        }
    }
}

/// 1 if the square `(x, y)` is at distance 1 from `origin`, else 0.
spec fn near(origin: SquarePosition, x: int, y: int) -> int {
    let horizontal = abs_diff(origin.x as int, x);
    let vertical = abs_diff(origin.y as int, y);
    if horizontal <= 1 && vertical <= 1 && (horizontal == 1 || vertical == 1) {
        1
    } else {
        0
    }
}

/// Number of neighbours of `origin` among the first `k` squares of the scan
/// order.
spec fn near_count(origin: SquarePosition, k: int) -> int
    decreases k,
{
    if k <= 0 {
        0
    } else {
        near_count(origin, k - 1) + near(origin, (k - 1) / 7, (k - 1) % 7)
    }
}

/// Number of neighbours of `origin` in column `c`.
spec fn column_share(origin: SquarePosition, c: int) -> int {
    let rows: int = if origin.y == 0 || origin.y == 6 {
        2
    } else {
        3
    };
    if c == origin.x {
        rows - 1
    } else if c == origin.x - 1 || c == origin.x + 1 {
        rows
    } else {
        0
    }
}

proof fn lemma_near_count(origin: SquarePosition, k: int)
    requires
        0 <= k <= CELLS,
    ensures
        scan_order().take(k).filter(adjacent_to(origin)).len() == near_count(origin, k),
    decreases k,
{
    if k > 0 {
        lemma_near_count(origin, k - 1);
        lemma_filter_step(scan_order(), adjacent_to(origin), k - 1);
    }
}

proof fn lemma_column_sum(origin: SquarePosition, c: int)
    requires
        origin.on_board(),
        0 <= c < 7,
    ensures
        near(origin, c, 0) + near(origin, c, 1) + near(origin, c, 2) + near(origin, c, 3) + near(
            origin,
            c,
            4,
        ) + near(origin, c, 5) + near(origin, c, 6) == column_share(origin, c),
{
}

proof fn lemma_column_share(origin: SquarePosition, c: int)
    requires
        origin.on_board(),
        0 <= c < 7,
    ensures
        near_count(origin, 7 * c + 7) == near_count(origin, 7 * c) + column_share(origin, c),
{
    let base = 7 * c;
    assert(near_count(origin, base + 1) == near_count(origin, base) + near(origin, c, 0));
    assert(near_count(origin, base + 2) == near_count(origin, base + 1) + near(origin, c, 1));
    assert(near_count(origin, base + 3) == near_count(origin, base + 2) + near(origin, c, 2));
    assert(near_count(origin, base + 4) == near_count(origin, base + 3) + near(origin, c, 3));
    assert(near_count(origin, base + 5) == near_count(origin, base + 4) + near(origin, c, 4));
    assert(near_count(origin, base + 6) == near_count(origin, base + 5) + near(origin, c, 5));
    assert(near_count(origin, base + 7) == near_count(origin, base + 6) + near(origin, c, 6));
    lemma_column_sum(origin, c);
}

/// A corner has 3 neighbours, any other square along an edge 5, and a
/// square of the interior 8.
pub proof fn lemma_neighbors_len(origin: SquarePosition)
    requires
        origin.on_board(),
    ensures
        neighbors(origin).len() == neighbor_count(origin),
{
    lemma_near_count(origin, 49);
    lemma_filter_ends(scan_order(), adjacent_to(origin));
    lemma_column_share(origin, 0);
    lemma_column_share(origin, 1);
    lemma_column_share(origin, 2);
    lemma_column_share(origin, 3);
    lemma_column_share(origin, 4);
    lemma_column_share(origin, 5);
    lemma_column_share(origin, 6);
}

/// Overwriting a cell takes one from the count of the piece it held and
/// adds one to the count of the piece it now holds.
pub proof fn lemma_count_update(
    cells: Seq<Option<Piece>>,
    i: int,
    cell: Option<Piece>,
    piece: Piece,
)
    requires
        0 <= i < cells.len(),
    ensures
        count_of(cells.update(i, cell), piece) == count_of(cells, piece) - (if cells[i] == Some(
            piece,
        ) {
            1int
        } else {
            0int
        }) + (if cell == Some(piece) {
            1int
        } else {
            0int
        }),
{
    lemma_filter_len_update(cells, holding(piece), i, cell);
}

/// A game starts with two pieces of each colour.
pub proof fn lemma_initial_counts()
    ensures
        count_of(initial_cells(), Piece::White) == 2,
        count_of(initial_cells(), Piece::Black) == 2,
{
    let empty = Seq::new(CELLS as nat, |i: int| None::<Piece>);
    let one = empty.update(0, Some(Piece::Black));
    let two = one.update(48, Some(Piece::Black));
    let three = two.update(42, Some(Piece::White));
    let four = three.update(6, Some(Piece::White));
    assert(four =~= initial_cells());
    lemma_filter_none(empty, holding(Piece::White));
    lemma_filter_none(empty, holding(Piece::Black));
    lemma_count_update(empty, 0, Some(Piece::Black), Piece::White);
    lemma_count_update(empty, 0, Some(Piece::Black), Piece::Black);
    lemma_count_update(one, 48, Some(Piece::Black), Piece::White);
    lemma_count_update(one, 48, Some(Piece::Black), Piece::Black);
    lemma_count_update(two, 42, Some(Piece::White), Piece::White);
    lemma_count_update(two, 42, Some(Piece::White), Piece::Black);
    lemma_count_update(three, 6, Some(Piece::White), Piece::White);
    lemma_count_update(three, 6, Some(Piece::White), Piece::Black);
}

/// Every generated move is a legal clone for `piece`: both ends lie on the
/// board next to each other, the origin holds `piece`, and the destination
/// is empty.
pub proof fn lemma_moves_are_clones(cells: Seq<Option<Piece>>, piece: Piece, i: int)
    requires
        0 <= i < moves_of(cells, piece).len(),
    ensures
        moves_of(cells, piece)[i].on_board(),
        moves_of(cells, piece)[i].distance_spec() == 1,
        cell_at(cells, moves_of(cells, piece)[i].from) == Some(piece),
        cell_at(cells, moves_of(cells, piece)[i].to).is_none(),
{
    let targets = blank_squares(cells).filter(reachable_by(cells, piece));
    let to = targets[i];
    assert(targets.contains(to));
    lemma_filter_members(blank_squares(cells), reachable_by(cells, piece));
    lemma_filter_members(scan_order(), vacant_in(cells));
    let from = sources(cells, piece, to)[0];
    assert(sources(cells, piece, to).contains(from));
    lemma_filter_members(neighbors(to), held_by(cells, piece));
    lemma_neighbors_members(to);
}

} // verus!
