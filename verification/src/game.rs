//! The decisions of one turn and of the game loop: classifying a line of
//! input, applying a move to the board, and picking whose turn it is.
//! Reading lines and printing messages happen outside this crate; the
//! caller feeds each line in and acts on the outcome.

use crate::board::Board;
use crate::board::Square;
use crate::board::spec_index_of;
use crate::board::spec_on_board;
use crate::point::Point;
use crate::point::chars_of;
use crate::point::spec_parse_ok;
use crate::point::spec_parsed_x;
use crate::point::spec_parsed_y;
use crate::point::spec_trim;
use crate::point::trim_bounds;
use crate::win::check_for_victory;
use crate::win::spec_victory;
use vstd::prelude::*;

verus! {

/// What a line of input asks for, decided before any move is attempted.
#[derive(Debug, PartialEq, Eq, Structural)]
pub enum Command {
    /// End the game at once.
    Quit,
    /// Show the help text; the turn is not consumed.
    Help,
    /// Place the current marker at this coordinate.
    Move(Point),
    /// The line named neither a known token nor a coordinate.
    Invalid,
}

/// Whether the trimmed input is one of the quit tokens.
pub open spec fn spec_is_quit(s: Seq<char>) -> bool {
    let t = spec_trim(s);
    t == "q"@ || t == "quit"@ || t == "e"@ || t == "exit"@
}

/// Whether the trimmed input is one of the help tokens.
pub open spec fn spec_is_help(s: Seq<char>) -> bool {
    let t = spec_trim(s);
    t == "h"@ || t == "help"@ || t == "i"@ || t == "info"@
}

/// Whether `v[lo..hi]` spells exactly the characters of `lit`.
fn range_matches(v: &Vec<char>, lo: usize, hi: usize, lit: &str) -> (r: bool)
    requires
        lo <= hi <= v@.len(),
    ensures
        r == (v@.subrange(lo as int, hi as int) == lit@),
{
    let n = lit.unicode_len();
    if hi - lo != n {
        proof {
            assert(v@.subrange(lo as int, hi as int).len() != lit@.len());
        }
        return false;
    }
    let mut j: usize = 0;
    while j < n
        invariant
            j <= n,
            n == lit@.len(),
            lo + n == hi,
            hi <= v@.len(),
            forall|k: int| 0 <= k < j ==> v@[lo + k] == lit@[k],
        decreases n - j,
    {
        if v[lo + j] != lit.get_char(j) {
            proof {
                assert(v@.subrange(lo as int, hi as int)[j as int] != lit@[j as int]);
            }
            return false;
        }
        j += 1;
    }
    proof {
        assert(v@.subrange(lo as int, hi as int) =~= lit@);
    }
    true
}

/// Classifies one line of input: a quit token ends the game, a help token
/// asks for the help text, any other line is read as a coordinate and is
/// invalid exactly when the coordinate text does not parse.
pub fn parse_command(input: &str) -> (r: Command)
    ensures
        spec_is_quit(input@) ==> r == Command::Quit,
        !spec_is_quit(input@) && spec_is_help(input@) ==> r == Command::Help,
        !spec_is_quit(input@) && !spec_is_help(input@) ==> (match r {
            Command::Move(p) => spec_parse_ok(input@) && p.x == spec_parsed_x(input@) && p.y
                == spec_parsed_y(input@),
            Command::Invalid => !spec_parse_ok(input@),
            _ => false,
        }),
{
    let v = chars_of(input);
    let n = v.len();
    let (lo, hi) = trim_bounds(&v, 0, n);
    proof {
        assert(v@.subrange(0, n as int) =~= v@);
    }
    if range_matches(&v, lo, hi, "q") || range_matches(&v, lo, hi, "quit") || range_matches(
        &v,
        lo,
        hi,
        "e",
    ) || range_matches(&v, lo, hi, "exit") {
        return Command::Quit;
    }
    if range_matches(&v, lo, hi, "h") || range_matches(&v, lo, hi, "help") || range_matches(
        &v,
        lo,
        hi,
        "i",
    ) || range_matches(&v, lo, hi, "info") {
        return Command::Help;
    }
    match Point::from_str(input) {
        Ok(p) => Command::Move(p),
        Err(_) => Command::Invalid,
    }
}

/// How one turn ended, given one line of input.
#[derive(Copy, Clone, Debug, PartialEq, Eq, Structural)]
pub enum TurnOutcome {
    /// A quit token: the game ends at once, the board untouched.
    Quit,
    /// A help token: show the help text and ask again; no turn consumed.
    Help,
    /// The line was not a coordinate; ask again.
    InvalidPoint,
    /// The coordinate lies outside the board; ask again.
    OffBoard,
    /// The square is already taken; ask again.
    Taken,
    /// The marker was placed; `win` says whether it completed a line.
    Placed { win: bool },
}

/// Carries out the decisions of one turn on one line of input: classify
/// the line, apply the move to the board, and report whether the placed
/// marker won. The board changes exactly when a marker is placed, and
/// then only in the one named square.
pub fn turn_step(board: &mut Board, player: &Square, input: &str) -> (r: TurnOutcome)
    ensures
        spec_is_quit(input@) ==> r == TurnOutcome::Quit,
        !spec_is_quit(input@) && spec_is_help(input@) ==> r == TurnOutcome::Help,
        !spec_is_quit(input@) && !spec_is_help(input@) && !spec_parse_ok(input@) ==> r
            == TurnOutcome::InvalidPoint,
        !spec_is_quit(input@) && !spec_is_help(input@) && spec_parse_ok(input@)
            && !spec_on_board(spec_parsed_x(input@), spec_parsed_y(input@)) ==> r
            == TurnOutcome::OffBoard,
        !spec_is_quit(input@) && !spec_is_help(input@) && spec_parse_ok(input@) && spec_on_board(
            spec_parsed_x(input@),
            spec_parsed_y(input@),
        ) && old(board).squares@[spec_index_of(spec_parsed_x(input@), spec_parsed_y(input@))]
            != Square::Empty ==> r == TurnOutcome::Taken,
        !spec_is_quit(input@) && !spec_is_help(input@) && spec_parse_ok(input@) && spec_on_board(
            spec_parsed_x(input@),
            spec_parsed_y(input@),
        ) && old(board).squares@[spec_index_of(spec_parsed_x(input@), spec_parsed_y(input@))]
            == Square::Empty ==> final(board).squares@ == old(board).squares@.update(
            spec_index_of(spec_parsed_x(input@), spec_parsed_y(input@)),
            *player,
        ) && r == (TurnOutcome::Placed { win: spec_victory(final(board).squares@, *player) }),
        !(r matches TurnOutcome::Placed { win }) ==> final(board).squares@ == old(
            board,
        ).squares@,
{
    match parse_command(input) {
        Command::Quit => TurnOutcome::Quit,
        Command::Help => TurnOutcome::Help,
        Command::Invalid => TurnOutcome::InvalidPoint,
        Command::Move(p) => {
            match board.set_square(&p, player) {
                Ok(_) => {
                    let win = check_for_victory(board, player, &p);
                    TurnOutcome::Placed { win }
                },
                Err(e) => {
                    if e == 1 {
                        TurnOutcome::OffBoard
                    } else {
                        TurnOutcome::Taken
                    }
                },
            }
        },
    }
}

/// The marker that moves on turn `i` of the game: the first player's `O`
/// on even turns, the second player's `X` on odd ones.
pub fn player_for_turn(i: usize) -> (p: Square)
    ensures
        p == (if i % 2 == 0 {
            Square::O
        } else {
            Square::X
        }),
        p != Square::Empty,
{
    if i % 2 == 0 {
        Square::O
    } else {
        Square::X
    }
}

} // verus!
