//! The 3x3 board: cell markers, the coordinate-to-index mapping, and
//! placement with its occupancy rule.

use crate::point::Point;
use vstd::prelude::*;

verus! {

broadcast use vstd::array::group_array_axioms;

/// A single square of the board: empty, or marked by one of the players.
#[derive(Copy, Clone, Debug, PartialEq, Eq, Structural)]
pub enum Square {
    Empty,
    O,
    X,
}

/// The one-character text a square shows: a blank for an empty square,
/// the player's own marker otherwise.
pub open spec fn spec_symbol(s: Square) -> Seq<char> {
    match s {
        Square::Empty => " "@,
        Square::O => "O"@,
        Square::X => "X"@,
    }
}

impl Square {
    /// The text this square shows when the board is drawn.
    pub fn symbol(&self) -> (r: &'static str)
        ensures
            r@ == spec_symbol(*self),
    {
        match self {
            Square::Empty => " ",
            Square::O => "O",
            Square::X => "X",
        }
    }
}

/// The index a coordinate maps to in the row-major cell array.
pub open spec fn spec_index_of(x: int, y: int) -> int {
    x + 3 * y
}

/// Whether a coordinate lies on the 3x3 board.
pub open spec fn spec_on_board(x: int, y: int) -> bool {
    0 <= x <= 2 && 0 <= y <= 2
}

/// The tic-tac-toe board: nine squares in row-major order
/// (index = x + 3 * y).
pub struct Board {
    pub squares: [Square; 9],
}

impl Board {
    /// A board with every square empty.
    pub fn new() -> (b: Board)
        ensures
            b.squares@ =~= Seq::new(9, |i: int| Square::Empty),
    {
        Board { squares: [Square::Empty; 9] }
    }

    /// Maps a coordinate to its cell index; `Err(1)` exactly when the
    /// coordinate lies outside the board.
    pub fn point_to_index(&self, p: &Point) -> (r: Result<usize, usize>)
        ensures
            spec_on_board(p.x as int, p.y as int) ==> r == Ok::<usize, usize>(
                (p.x + 3 * p.y) as usize,
            ),
            !spec_on_board(p.x as int, p.y as int) ==> r == Err::<usize, usize>(1usize),
            r matches Ok(i) ==> i < 9,
    {
        if p.x <= 2 && p.y <= 2 {
            Ok(p.x + 3 * p.y)
        } else {
            Err(1)
        }
    }

    /// Places a marker on an empty in-bounds square, overwriting nothing:
    /// `Err(1)` when the coordinate is off the board, `Err(2)` when the
    /// square is already taken, and in either case the board is unchanged;
    /// `Ok(0)` exactly otherwise, with exactly that one square set.
    pub fn set_square(&mut self, p: &Point, square: &Square) -> (r: Result<usize, usize>)
        ensures
            !spec_on_board(p.x as int, p.y as int) ==> r == Err::<usize, usize>(1usize)
                && final(self).squares@ == old(self).squares@,
            spec_on_board(p.x as int, p.y as int) && old(self).squares@[spec_index_of(
                p.x as int,
                p.y as int,
            )] != Square::Empty ==> r == Err::<usize, usize>(2usize) && final(self).squares@ == old(
                self,
            ).squares@,
            spec_on_board(p.x as int, p.y as int) && old(self).squares@[spec_index_of(
                p.x as int,
                p.y as int,
            )] == Square::Empty ==> r == Ok::<usize, usize>(0usize) && final(self).squares@ == old(
                self,
            ).squares@.update(spec_index_of(p.x as int, p.y as int), *square),
    {
        let index = match self.point_to_index(p) {
            Ok(i) => i,
            Err(e) => {
                return Err(e);
            },
        };
        if self.squares[index] == Square::Empty {
            self.squares[index] = *square;
            Ok(0)
        } else {
            Err(2)
        }
    }
}

/// The full text of the drawn board: the nine cells in row-major order,
/// column separators between cells and a rule between rows.
pub open spec fn spec_render(b: Seq<Square>) -> Seq<char> {
    "\n             "@ + spec_symbol(b[0]) + " | "@ + spec_symbol(b[1]) + " | "@ + spec_symbol(
        b[2],
    ) + "\n            -- + - + --\n             "@ + spec_symbol(b[3]) + " | "@ + spec_symbol(
        b[4],
    ) + " | "@ + spec_symbol(b[5]) + "\n            -- + - + --\n             "@ + spec_symbol(
        b[6],
    ) + " | "@ + spec_symbol(b[7]) + " | "@ + spec_symbol(b[8]) + "\n            "@
}

impl Board {
    /// Draws the board as text, the nine squares in row-major order.
    pub fn render(&self) -> (r: String)
        ensures
            r@ == spec_render(self.squares@),
    {
        let mut s = String::from_str("\n             ");
        s.append(self.squares[0].symbol());
        s.append(" | ");
        s.append(self.squares[1].symbol());
        s.append(" | ");
        s.append(self.squares[2].symbol());
        s.append("\n            -- + - + --\n             ");
        s.append(self.squares[3].symbol());
        s.append(" | ");
        s.append(self.squares[4].symbol());
        s.append(" | ");
        s.append(self.squares[5].symbol());
        s.append("\n            -- + - + --\n             ");
        s.append(self.squares[6].symbol());
        s.append(" | ");
        s.append(self.squares[7].symbol());
        s.append(" | ");
        s.append(self.squares[8].symbol());
        s.append("\n            ");
        proof {
            assert(s@ =~= spec_render(self.squares@));
        }
        s
    }
}

/// Every on-board coordinate maps to a cell index in 0..=8.
pub proof fn lemma_index_in_range(x: int, y: int)
    requires
        spec_on_board(x, y),
    ensures
        0 <= spec_index_of(x, y) <= 8,
{
}

/// The coordinate-to-index mapping is injective on the board.
pub proof fn lemma_index_injective(x1: int, y1: int, x2: int, y2: int)
    requires
        spec_on_board(x1, y1),
        spec_on_board(x2, y2),
        spec_index_of(x1, y1) == spec_index_of(x2, y2),
    ensures
        x1 == x2 && y1 == y2,
{
}

/// The coordinate-to-index mapping is onto 0..=8: together with the two
/// lemmas above, it is a bijection between the board and the cell indices.
pub proof fn lemma_index_surjective(i: int)
    requires
        0 <= i <= 8,
    ensures
        exists|x: int, y: int| spec_on_board(x, y) && #[trigger] spec_index_of(x, y) == i,
{
    let x = i % 3;
    let y = i / 3;
    assert(spec_on_board(x, y) && spec_index_of(x, y) == i) by (nonlinear_arith)
        requires
            0 <= i <= 8,
            x == i % 3,
            y == i / 3,
    ;
}

} // verus!
