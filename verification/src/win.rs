//! Win detection: whether a marker holds a complete line of the board.

use crate::board::Board;
use crate::board::Square;
use crate::point::Point;
use vstd::prelude::*;

verus! {

/// Whether (i, j, k) is one of the 8 winning lines of the 3x3 board:
/// 3 rows, 3 columns, 2 diagonals, in row-major cell indices.
pub open spec fn spec_is_line(i: int, j: int, k: int) -> bool {
    ||| (i, j, k) == (0int, 1int, 2int)
    ||| (i, j, k) == (3int, 4int, 5int)
    ||| (i, j, k) == (6int, 7int, 8int)
    ||| (i, j, k) == (0int, 3int, 6int)
    ||| (i, j, k) == (1int, 4int, 7int)
    ||| (i, j, k) == (2int, 5int, 8int)
    ||| (i, j, k) == (0int, 4int, 8int)
    ||| (i, j, k) == (2int, 4int, 6int)
}

/// Whether all three cells of the line (i, j, k) hold the marker `p`.
pub open spec fn spec_line_held(b: Seq<Square>, p: Square, i: int, j: int, k: int) -> bool {
    b[i] == p && b[j] == p && b[k] == p
}

/// Whether the marker `p` has won on board `b`: `p` is a player's marker
/// (not the empty value) and some winning line is held entirely by `p`.
pub open spec fn spec_victory(b: Seq<Square>, p: Square) -> bool {
    p != Square::Empty && exists|i: int, j: int, k: int|
        #[trigger] spec_is_line(i, j, k) && spec_line_held(b, p, i, j, k)
}

/// Decides whether `player` holds a complete winning line.
///
/// The just-placed point is accepted but not consulted: all 8 lines are
/// checked, so the answer is the same whichever cell was placed last.
pub fn check_for_victory(board: &Board, player: &Square, _point: &Point) -> (r: bool)
    ensures
        r == spec_victory(board.squares@, *player),
{
    let b = &board.squares;
    let p = *player;
    if p == Square::Empty {
        proof {
            assert(!spec_victory(board.squares@, p));
        }
        return false;
    }
    let won = (b[0] == p && b[1] == p && b[2] == p) || (b[3] == p && b[4] == p && b[5] == p) || (
    b[6] == p && b[7] == p && b[8] == p) || (b[0] == p && b[3] == p && b[6] == p) || (b[1] == p
        && b[4] == p && b[7] == p) || (b[2] == p && b[5] == p && b[8] == p) || (b[0] == p && b[4]
        == p && b[8] == p) || (b[2] == p && b[4] == p && b[6] == p);
    proof {
        if won {
            assert(spec_victory(board.squares@, p)) by {
                if spec_line_held(board.squares@, p, 0, 1, 2) {
                    assert(spec_is_line(0, 1, 2) && spec_line_held(board.squares@, p, 0, 1, 2));
                } else if spec_line_held(board.squares@, p, 3, 4, 5) {
                    assert(spec_is_line(3, 4, 5) && spec_line_held(board.squares@, p, 3, 4, 5));
                } else if spec_line_held(board.squares@, p, 6, 7, 8) {
                    assert(spec_is_line(6, 7, 8) && spec_line_held(board.squares@, p, 6, 7, 8));
                } else if spec_line_held(board.squares@, p, 0, 3, 6) {
                    assert(spec_is_line(0, 3, 6) && spec_line_held(board.squares@, p, 0, 3, 6));
                } else if spec_line_held(board.squares@, p, 1, 4, 7) {
                    assert(spec_is_line(1, 4, 7) && spec_line_held(board.squares@, p, 1, 4, 7));
                } else if spec_line_held(board.squares@, p, 2, 5, 8) {
                    assert(spec_is_line(2, 5, 8) && spec_line_held(board.squares@, p, 2, 5, 8));
                } else if spec_line_held(board.squares@, p, 0, 4, 8) {
                    assert(spec_is_line(0, 4, 8) && spec_line_held(board.squares@, p, 0, 4, 8));
                } else {
                    assert(spec_is_line(2, 4, 6) && spec_line_held(board.squares@, p, 2, 4, 6));
                }
            }
        } else {
            assert(!spec_victory(board.squares@, p)) by {
                assert forall|i: int, j: int, k: int| #[trigger]
                    spec_is_line(i, j, k) implies !spec_line_held(
                    board.squares@,
                    p,
                    i,
                    j,
                    k,
                ) by {}
            }
        }
    }
    won
}

/// No marker, the empty value included, wins on a board with no
/// fully held line.
pub proof fn lemma_no_full_line_no_victory(b: Seq<Square>, p: Square)
    requires
        forall|i: int, j: int, k: int| #[trigger]
            spec_is_line(i, j, k) ==> !spec_line_held(b, p, i, j, k),
    ensures
        !spec_victory(b, p),
{
}

/// An all-empty board is won by no marker, the empty value included.
pub proof fn lemma_empty_board_no_victory(b: Seq<Square>, p: Square)
    requires
        b.len() == 9,
        forall|i: int| 0 <= i < 9 ==> b[i] == Square::Empty,
    ensures
        !spec_victory(b, p),
{
    if p == Square::Empty {
    } else {
        assert forall|i: int, j: int, k: int| #[trigger]
            spec_is_line(i, j, k) implies !spec_line_held(b, p, i, j, k) by {}
    }
}

/// A player's marker that holds all three cells of a winning line has won.
pub proof fn lemma_full_line_victory(b: Seq<Square>, p: Square, i: int, j: int, k: int)
    requires
        p != Square::Empty,
        spec_is_line(i, j, k),
        spec_line_held(b, p, i, j, k),
    ensures
        spec_victory(b, p),
{
}

} // verus!
