//! Board coordinates, Chebyshev distance and the scan order.

use vstd::prelude::*;

verus! {

/// Number of squares along each side of the board.
pub const SIDE: usize = 7;

/// Number of squares on the board.
pub const CELLS: usize = 49;

/// The absolute value of `a - b`.
pub open spec fn abs_diff(a: int, b: int) -> int {
    if a < b {
        b - a
    } else {
        a - b
    }
}

/// Returns the absolute difference of two coordinates.
pub fn abs_difference(x: usize, y: usize) -> (d: usize)
    ensures
        d == abs_diff(x as int, y as int),
{
    if x < y {
        y - x
    } else {
        x - y
    }
}

/// A square, named by its column `x` and its row `y`.
///
/// Squares of the board have both coordinates below [`SIDE`]; the board's
/// operations ask for such squares.
#[derive(Clone, Copy, Debug, PartialEq, Eq, Structural)]
pub struct SquarePosition {
    pub x: usize,
    pub y: usize,
}

impl SquarePosition {
    /// Whether the square lies on the board.
    pub open spec fn on_board(self) -> bool {
        self.x < SIDE && self.y < SIDE
    }

    /// Index of the square's cell in the board's row-major grid.
    pub open spec fn offset(self) -> int {
        self.x + self.y * SIDE
    }

    /// Chebyshev distance: the larger of the horizontal and the vertical
    /// distance, so that all eight neighbours of a square are at distance 1.
    pub open spec fn distance_spec(self, other: SquarePosition) -> int {
        let horizontal = abs_diff(self.x as int, other.x as int);
        let vertical = abs_diff(self.y as int, other.y as int);
        if horizontal >= vertical {
            horizontal
        } else {
            vertical
        }
    }

    /// Names the square in column `x` and row `y`.
    pub fn new(x: usize, y: usize) -> (pos: SquarePosition)
        ensures
            pos.x == x,
            pos.y == y,
    {
        SquarePosition { x, y }
    }

    /// Returns the Chebyshev distance between the two squares.
    pub fn distance(&self, other: &SquarePosition) -> (d: usize)
        ensures
            d == self.distance_spec(*other),
    {
        let horizontal = abs_difference(self.x, other.x);
        let vertical = abs_difference(self.y, other.y);
        if horizontal >= vertical {
            horizontal
        } else {
            vertical
        }
    }

    /// Returns whether the square lies on the board.
    pub fn is_on_board(&self) -> (on: bool)
        ensures
            on == self.on_board(),
    {
        self.x < SIDE && self.y < SIDE
    }

    /// Distance is symmetric, and zero exactly between a square and itself.
    pub proof fn lemma_distance_symmetric(self, other: SquarePosition)
        ensures
            self.distance_spec(other) == other.distance_spec(self),
            self.distance_spec(self) == 0,
            self.distance_spec(other) == 0 <==> self == other,
            self.distance_spec(other) >= 0,
    {
    }
}

/// The `k`-th square of the scan order: column after column, and within a
/// column from row 0 upwards.
pub open spec fn scan_position(k: int) -> SquarePosition {
    SquarePosition { x: (k / 7) as usize, y: (k % 7) as usize }
}

/// All squares of the board in scan order. Move generation and the move
/// chooser's tie-break go by this order.
pub open spec fn scan_order() -> Seq<SquarePosition> {
    Seq::new(CELLS as nat, |k: int| scan_position(k))
}

/// The square whose cell has index `i` in the grid: the inverse of
/// [`SquarePosition::offset`] on the board.
pub open spec fn position_at(i: int) -> SquarePosition {
    SquarePosition { x: (i % 7) as usize, y: (i / 7) as usize }
}

/// On the board, squares and cell indices correspond one to one.
pub proof fn lemma_offset_bijective(pos: SquarePosition, i: int)
    ensures
        pos.on_board() ==> 0 <= pos.offset() < CELLS && position_at(pos.offset()) == pos,
        0 <= i < CELLS ==> position_at(i).on_board() && position_at(i).offset() == i,
{
}

} // verus!
