use tictactoe::board::Board;
use tictactoe::board::Square;
use tictactoe::board::Square::{Empty, O, X};
use tictactoe::point::ParseError;
use tictactoe::point::Point;
use tictactoe::win::check_for_victory;

#[test]
fn test_point_from_str() {
    assert_eq!(
        Point::from_str("0, 0"),
        Ok(Point { x: 0, y: 0 }),
        "A string of '0, 0' should be parsed to a Point {{ x:0, y:0 }}."
    );
    assert_eq!(
        Point::from_str(" 1, 2 "),
        Ok(Point { x: 1, y: 2 }),
        "Leading and trailing whitespace should be stripped."
    );
    assert!(
        Point::from_str("1,").is_err(),
        "A missing Y value should produce an error."
    );
    assert!(
        Point::from_str(",4").is_err(),
        "A missing X value should produce an error."
    );
    assert!(
        Point::from_str("").is_err(),
        "An empty string should produce an error."
    );
}

#[test]
fn test_board_point_to_index() {
    let board = Board { squares: [Empty; 9] };
    assert_eq!(
        board.point_to_index(&Point { x: 0, y: 0 }),
        Ok(0),
        "A Point {{x:0, y:0}} should index the first element."
    );
    assert_eq!(
        board.point_to_index(&Point { x: 2, y: 0 }),
        Ok(2),
        "A Point {{x:2, y:0}} should index the third element."
    );
    assert_eq!(
        board.point_to_index(&Point { x: 2, y: 2 }),
        Ok(8),
        "A Point {{x:2, y:2}} should index the last element."
    );
    assert_eq!(
        board.point_to_index(&Point { x: 0, y: 3 }),
        Err(1),
        "An out-of-bounds y-coordinate should be an error."
    );
    assert_eq!(
        board.point_to_index(&Point { x: 3, y: 0 }),
        Err(1),
        "An out-of-bounds x-coordinate should be an error."
    );
    assert_eq!(
        board.point_to_index(&Point { x: 3, y: 3 }),
        Err(1),
        "Two out-of-bounds coordinates should be an error."
    );
}

#[test]
fn test_board_set_square() {
    let mut board = Board { squares: [Empty; 9] };
    assert_eq!(
        board.set_square(&Point { x: 0, y: 0 }, &O),
        Ok(0),
        "Setting an empty square inside the board be OK."
    );
    assert_eq!(
        board.set_square(&Point { x: 3, y: 3 }, &O),
        Err(1),
        "Setting a square outside the board should fail."
    );
}

#[test]
fn test_check_for_victory() {
    let boards_with_no_victory = [
        Board { squares: [Empty; 9] },
        Board {
            squares: [Empty, Empty, Empty, Empty, Empty, Empty, Empty, Empty, X],
        },
    ];
    let players = [O, X];
    let points = [
        Point { x: 0, y: 0 },
        Point { x: 1, y: 0 },
        Point { x: 2, y: 0 },
        Point { x: 0, y: 1 },
        Point { x: 1, y: 1 },
        Point { x: 2, y: 1 },
        Point { x: 0, y: 2 },
        Point { x: 1, y: 2 },
        Point { x: 2, y: 2 },
    ];
    for board in boards_with_no_victory.iter() {
        for player in players.iter() {
            for point in points.iter() {
                assert!(!check_for_victory(&board, &player, &point), "should be false.");
            }
        }
    }
}

#[test]
fn parse_exact_values() {
    assert_eq!(Point::from_str("2, 1"), Ok(Point { x: 2, y: 1 }));
    assert_eq!(Point::from_str("12,34"), Ok(Point { x: 12, y: 34 }));
    assert_eq!(Point::from_str("\t 0 ,\t8 \n"), Ok(Point { x: 0, y: 8 }));
    assert_eq!(Point::from_str("007, 0"), Ok(Point { x: 7, y: 0 }));
}

#[test]
fn parse_ignores_third_field() {
    // Only the first two comma-separated fields are read.
    assert_eq!(Point::from_str("1, 2, 3"), Ok(Point { x: 1, y: 2 }));
}

#[test]
fn parse_rejects_malformed_text() {
    assert_eq!(Point::from_str("a, 1"), Err(ParseError));
    assert_eq!(Point::from_str("1, b"), Err(ParseError));
    assert_eq!(Point::from_str("1 2"), Err(ParseError));
    assert_eq!(Point::from_str("-1, 2"), Err(ParseError));
    assert_eq!(Point::from_str("   ,   "), Err(ParseError));
    assert_eq!(
        Point::from_str("99999999999999999999999999999, 0"),
        Err(ParseError),
        "An overflowing value should produce an error."
    );
}

#[test]
fn index_mapping_is_bijective_on_the_board() {
    let board = Board { squares: [Empty; 9] };
    let mut seen = [false; 9];
    for y in 0..3usize {
        for x in 0..3usize {
            let i = board
                .point_to_index(&Point { x, y })
                .expect("an on-board coordinate should map to an index");
            assert_eq!(i, x + 3 * y);
            assert!(!seen[i], "no two coordinates share an index");
            seen[i] = true;
        }
    }
    assert!(seen.iter().all(|&s| s), "every index is reached");
}

#[test]
fn off_board_coordinates_are_rejected() {
    let board = Board { squares: [Empty; 9] };
    assert_eq!(board.point_to_index(&Point { x: 0, y: 3 }), Err(1));
    assert_eq!(board.point_to_index(&Point { x: 3, y: 0 }), Err(1));
    assert_eq!(board.point_to_index(&Point { x: 3, y: 3 }), Err(1));
    assert_eq!(board.point_to_index(&Point { x: 100, y: 1 }), Err(1));
}

#[test]
fn placing_marks_exactly_one_square() {
    let mut board = Board::new();
    assert_eq!(board.set_square(&Point { x: 1, y: 2 }, &X), Ok(0));
    for i in 0..9 {
        if i == 7 {
            assert_eq!(board.squares[i], X, "the placed square reads back as X");
        } else {
            assert_eq!(board.squares[i], Empty, "no other square changes");
        }
    }
}

#[test]
fn failed_placement_leaves_board_unchanged() {
    let mut board = Board::new();
    assert_eq!(board.set_square(&Point { x: 0, y: 0 }, &O), Ok(0));
    let before = board.squares;
    assert_eq!(
        board.set_square(&Point { x: 0, y: 0 }, &X),
        Err(2),
        "An occupied square should report SquareOccupied."
    );
    assert_eq!(board.squares, before);
    assert_eq!(board.set_square(&Point { x: 5, y: 5 }, &X), Err(1));
    assert_eq!(board.squares, before);
}

#[test]
fn each_full_line_wins_and_two_cells_do_not() {
    let lines: [[usize; 3]; 8] = [
        [0, 1, 2],
        [3, 4, 5],
        [6, 7, 8],
        [0, 3, 6],
        [1, 4, 7],
        [2, 5, 8],
        [0, 4, 8],
        [2, 4, 6],
    ];
    let origin = Point { x: 0, y: 0 };
    for line in lines.iter() {
        for player in [O, X].iter() {
            let mut full = Board::new();
            for &i in line.iter() {
                full.squares[i] = *player;
            }
            assert!(check_for_victory(&full, player, &origin));
            let mut partial = Board::new();
            partial.squares[line[0]] = *player;
            partial.squares[line[1]] = *player;
            assert!(
                !check_for_victory(&partial, player, &origin),
                "two of three cells are not a win"
            );
        }
    }
}

#[test]
fn empty_marker_never_wins() {
    let empty_board = Board::new();
    assert!(!check_for_victory(&empty_board, &Square::Empty, &Point { x: 1, y: 1 }));
    let mut full_row = Board::new();
    // Even a full line of empty squares is no win for the empty marker.
    assert!(!check_for_victory(&full_row, &Square::Empty, &Point { x: 0, y: 0 }));
    full_row.squares[0] = O;
    full_row.squares[1] = O;
    full_row.squares[2] = O;
    assert!(check_for_victory(&full_row, &O, &Point { x: 0, y: 0 }));
    assert!(!check_for_victory(&full_row, &X, &Point { x: 0, y: 0 }));
}
