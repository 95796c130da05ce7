//! Further tests: every parse-error variant, round trips for moves,
//! the wall-crossing set operations, the straight jump over an
//! adjacent pawn, the memoized counter, and the grid rendering.

use std::collections::HashSet;

use quorigen::board::Board;
use quorigen::perft::{perft, perft_cached, PerftCache};
use quorigen::squareset::{SquareSet, SquareSetIter};
use quorigen::squareset9x9;
use quorigen::types::{Move, MoveParseError, Square8x8, Square9x9, SquareParseError};

fn mv(name: &str) -> Move {
    Move::from_algebraic(name).unwrap()
}

fn move_names(board: &Board) -> HashSet<String> {
    let mut names = HashSet::new();
    for m in board.generate_moves() {
        names.insert(m.to_algebraic());
    }
    names
}

#[test]
fn square_parse_error_variants() {
    assert_eq!(Square9x9::from_algebraic(""), Err(SquareParseError::Empty));
    assert_eq!(Square9x9::from_algebraic("e"), Err(SquareParseError::TooShort));
    assert_eq!(Square9x9::from_algebraic("e444"), Err(SquareParseError::TooLong(4)));
    assert_eq!(
        Square9x9::from_algebraic("4e"),
        Err(SquareParseError::NonAlphabeticFile('4'))
    );
    assert_eq!(
        Square9x9::from_algebraic("ee"),
        Err(SquareParseError::NonDigitRank('e'))
    );
    assert_eq!(
        Square9x9::from_algebraic("z5"),
        Err(SquareParseError::FileOutOfRange('z'))
    );
    assert_eq!(
        Square9x9::from_algebraic("a0"),
        Err(SquareParseError::RankSubtractionUnderflow('0'))
    );
    // the 8x8 grid rejects its ninth file and rank
    assert_eq!(
        Square8x8::from_algebraic("i1"),
        Err(SquareParseError::FileOutOfRange('i'))
    );
    assert_eq!(
        Square8x8::from_algebraic("a9"),
        Err(SquareParseError::RankOutOfRange('9'))
    );
}

#[test]
fn move_parse_error_variants() {
    assert_eq!(Move::from_algebraic(""), Err(MoveParseError::Empty));
    assert_eq!(Move::from_algebraic("e"), Err(MoveParseError::TooShort));
    assert_eq!(Move::from_algebraic("e4hh"), Err(MoveParseError::TooLong(4)));
    assert_eq!(
        Move::from_algebraic("e4x"),
        Err(MoveParseError::AlignmentParseError('x'))
    );
    assert_eq!(
        Move::from_algebraic("j1"),
        Err(MoveParseError::Square9x9ParseError(SquareParseError::FileOutOfRange('j')))
    );
    assert_eq!(
        Move::from_algebraic("i1h"),
        Err(MoveParseError::Square8x8ParseError(SquareParseError::FileOutOfRange('i')))
    );
}

#[test]
fn move_round_trips() {
    for name in ["e2", "a1", "i9", "a1h", "h8v", "e4h", "e4v"] {
        let m = mv(name);
        assert_eq!(m.to_algebraic(), name);
        assert_eq!(Move::from_algebraic(&m.to_algebraic()), Ok(m));
    }
    // the file letter is case-insensitive on input
    assert_eq!(Move::from_algebraic("E4H"), Err(MoveParseError::AlignmentParseError('H')));
    assert_eq!(mv("E4h"), mv("e4h"));
}

#[test]
fn crossing_conversion() {
    // squares on the far edges have no crossing point
    assert!(Square9x9::from_algebraic("i5").unwrap().to_square8x8().is_none());
    assert!(Square9x9::from_algebraic("e9").unwrap().to_square8x8().is_none());
    let e4 = Square9x9::from_algebraic("e4").unwrap().to_square8x8().unwrap();
    assert_eq!(e4, Square8x8::from_algebraic("e4").unwrap());
    assert_eq!(e4.index(), 4 + 3 * 8);
}

fn cross(name: &str) -> Square8x8 {
    Square8x8::from_algebraic(name).unwrap()
}

#[test]
fn squareset_basic_ops() {
    let empty = SquareSet::from_inner(0);
    assert!(empty.is_empty());
    assert!(!empty.non_empty());
    assert_eq!(empty.count(), 0);

    let a1 = cross("a1");
    let c2 = cross("c2");
    let h8 = cross("h8");
    let mut set = empty;
    set = set.add_square(a1).add_square(c2).add_square(h8);
    assert_eq!(set.count(), 3);
    assert!(set.contains_square(c2));
    assert!(!set.contains_square(cross("d4")));
    assert_eq!(set.first(), a1);
    assert!(set.contains(SquareSet::from_square(c2)));
    assert!(!SquareSet::from_square(c2).contains(set));

    let no_c2 = set.remove_square(c2);
    assert_eq!(no_c2.count(), 2);
    assert!(!no_c2.contains_square(c2));
    assert_eq!(set.remove(SquareSet::from_square(c2)), no_c2);
    assert_eq!(set.toggle_square(c2), no_c2);
    assert_eq!(no_c2.toggle_square(c2), set);
    assert_eq!(no_c2.union(SquareSet::from_square(c2)), set);
    assert_eq!(set.intersection(no_c2), no_c2);
    assert_eq!(set.toggle(no_c2), SquareSet::from_square(c2));

    assert!(set.complement().is_empty() == false);
    assert_eq!(set.complement().count(), 61);
    assert!(SquareSet::from_inner(u64::MAX).is_full());
    assert_eq!(set.inner(), set.bits);
}

#[test]
fn squareset_shifts() {
    let d4 = SquareSet::from_square(cross("d4"));
    assert_eq!(d4.north_one(), SquareSet::from_square(cross("d5")));
    assert_eq!(d4.south_one(), SquareSet::from_square(cross("d3")));
    assert_eq!(d4.east_one(), SquareSet::from_square(cross("e4")));
    assert_eq!(d4.west_one(), SquareSet::from_square(cross("c4")));
    assert_eq!(d4.north_east_one(), SquareSet::from_square(cross("e5")));
    assert_eq!(d4.north_west_one(), SquareSet::from_square(cross("c5")));
    assert_eq!(d4.south_east_one(), SquareSet::from_square(cross("e3")));
    assert_eq!(d4.south_west_one(), SquareSet::from_square(cross("c3")));

    // shifts drop squares off the corresponding edge
    let h8 = SquareSet::from_square(cross("h8"));
    assert!(h8.north_one().is_empty());
    assert!(h8.east_one().is_empty());
    assert!(h8.north_east_one().is_empty());
    let a1 = SquareSet::from_square(cross("a1"));
    assert!(a1.south_one().is_empty());
    assert!(a1.west_one().is_empty());
    assert!(a1.south_west_one().is_empty());
}

#[test]
fn squareset_iter_order() {
    let set = SquareSet::from_inner(0)
        .add_square(cross("h8"))
        .add_square(cross("a1"))
        .add_square(cross("c2"));
    let mut iter: SquareSetIter = set.iter();
    assert_eq!(iter.next(), Some(cross("a1")));
    assert_eq!(iter.next(), Some(cross("c2")));
    assert_eq!(iter.next(), Some(cross("h8")));
    assert_eq!(iter.next(), None);
    assert_eq!(iter.next(), None);
}

#[test]
fn squareset9x9_iter_order() {
    let set = squareset9x9::SquareSet::new()
        .add(Square9x9::from_algebraic("i9").unwrap())
        .add(Square9x9::from_algebraic("a1").unwrap())
        .add(Square9x9::from_algebraic("e5").unwrap());
    let mut iter = set.iter();
    assert_eq!(iter.next(), Some(Square9x9::from_algebraic("a1").unwrap()));
    assert_eq!(iter.next(), Some(Square9x9::from_algebraic("e5").unwrap()));
    assert_eq!(iter.next(), Some(Square9x9::from_algebraic("i9").unwrap()));
    assert_eq!(iter.next(), None);
}

#[test]
fn squareset9x9_algebra() {
    let a1 = Square9x9::from_algebraic("a1").unwrap();
    let e5 = Square9x9::from_algebraic("e5").unwrap();
    let both = squareset9x9::SquareSet::new().add(a1).add(e5);
    let just_a1 = squareset9x9::SquareSet::new().add(a1);
    assert_eq!(just_a1.union(both), both);
    assert_eq!(just_a1.intersection(both), just_a1);
    let rest = both.complement();
    assert!(!rest.contains(a1));
    assert!(!rest.contains(e5));
    assert!(rest.contains(Square9x9::from_algebraic("i9").unwrap()));
    assert_eq!(rest.complement(), both);
}

#[test]
fn grid_rendering() {
    let set = SquareSet::from_inner(0)
        .add_square(cross("a1"))
        .add_square(cross("h8"));
    let mut expected = String::new();
    expected.push_str(". . . . . . . X \n");
    for _ in 0..6 {
        expected.push_str(". . . . . . . . \n");
    }
    expected.push_str("X . . . . . . . \n");
    assert_eq!(set.to_grid_string(), expected);

    let board9 = quorigen::squareset9x9::SquareSet::new()
        .add(Square9x9::from_algebraic("e1").unwrap());
    let mut expected9 = String::new();
    for _ in 0..8 {
        expected9.push_str(". . . . . . . . . \n");
    }
    expected9.push_str(". . . . X . . . . \n");
    assert_eq!(board9.to_grid_string(), expected9);
}

#[test]
fn straight_jump_over_adjacent_pawn() {
    let mut board = Board::default();
    for name in ["e2", "e8", "e3", "e7", "e4", "e6", "e5"] {
        board.make_move(mv(name));
    }
    // black stands on e6, white on e5: black's southward step jumps
    // straight over the white pawn
    let names = move_names(&board);
    assert!(names.contains("e4"));
    assert!(!names.contains("e5"));
    assert!(names.contains("e7"));
    assert!(names.contains("d6"));
    assert!(names.contains("f6"));
}

#[test]
fn straight_jump_blocked_by_wall() {
    let mut board = Board::default();
    for name in ["e2", "e8", "e3", "e7", "e4", "e6", "e5"] {
        board.make_move(mv(name));
    }
    // black blocks the square behind white with a wall, then we look
    // at the position from black's side again: the jump is gone and
    // no southward move remains
    board.make_move(mv("d4h"));
    // white, in turn, can jump north over black
    let white_names = move_names(&board);
    assert!(white_names.contains("e7"));
    assert!(!white_names.contains("e6"));
    board.pass_turn();
    let black_names = move_names(&board);
    assert!(!black_names.contains("e5"));
    assert!(!black_names.contains("e4"));
    assert!(black_names.contains("e7"));
    assert!(black_names.contains("d6"));
    assert!(black_names.contains("f6"));
}

#[test]
fn perft_cached_matches_perft() {
    let board = Board::default();
    let mut cache = PerftCache::new();
    assert_eq!(perft_cached(board, 0, &mut cache), 1);
    assert_eq!(perft_cached(board, 1, &mut cache), 131);
    let plain = perft(board, 2);
    assert_eq!(perft_cached(board, 2, &mut cache), plain);
    // a second run is answered from the cache and must agree
    assert_eq!(perft_cached(board, 2, &mut cache), plain);
}

#[test]
fn perft_depth_zero() {
    assert_eq!(perft(Board::default(), 0), 1);
}
