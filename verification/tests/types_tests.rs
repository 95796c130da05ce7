//! Tests for the coordinate types, move encoding, and their
//! algebraic-notation parsing and printing.

use quorigen::types::{Move, Square8x8, Square9x9, SquareParseError, WallOrientation};

#[test]
fn move_display() {
    let e4: Square8x8 = Square9x9::from_algebraic("e4").unwrap().to_square8x8().unwrap();
    let mv_e45 = Move::Wall { to_square: e4, orientation: WallOrientation::Vertical };
    let mv_4ef = Move::Wall { to_square: e4, orientation: WallOrientation::Horizontal };

    assert_eq!(mv_e45.to_algebraic(), "e4v");
    assert_eq!(mv_4ef.to_algebraic(), "e4h");
}

#[test]
fn square_parsing() {
    assert_eq!(
        Square9x9::from_algebraic("a1").unwrap(),
        Square9x9::from_index(0).unwrap()
    );
    assert_eq!(
        Square9x9::from_algebraic("i9").unwrap(),
        Square9x9::from_index(80).unwrap()
    );

    assert_eq!(
        Square9x9::from_algebraic("a0"),
        Err(SquareParseError::RankSubtractionUnderflow('0'))
    );
    assert_eq!(
        Square9x9::from_algebraic("a10"),
        Err(SquareParseError::TooLong(3))
    );
    assert_eq!(
        Square9x9::from_algebraic("j1"),
        Err(SquareParseError::FileOutOfRange('j'))
    );
    assert_eq!(
        Square9x9::from_algebraic("A1"),
        Ok(Square9x9::from_index(0).unwrap())
    );
    assert_eq!(Square9x9::from_algebraic("a"), Err(SquareParseError::TooShort));
    assert_eq!(Square9x9::from_algebraic(""), Err(SquareParseError::Empty));
    assert_eq!(
        Square9x9::from_algebraic("!!"),
        Err(SquareParseError::NonAlphabeticFile('!'))
    );
}

#[test]
fn square_round_trip() {
    for index in 0..81 {
        let square = Square9x9::from_index(index).unwrap();
        let square_str = square.to_algebraic();
        let square_parsed = Square9x9::from_algebraic(&square_str).unwrap();
        assert_eq!(square, square_parsed);
    }
}

#[test]
fn rank_file_name_coherence() {
    let ranks = ["1", "2", "3", "4", "5", "6", "7", "8", "9"];
    let files = ["a", "b", "c", "d", "e", "f", "g", "h", "i"];
    for (rank_index, rank) in ranks.iter().enumerate() {
        for (file_index, file) in files.iter().enumerate() {
            let square_name = format!("{file}{rank}");
            let square_from_name = Square9x9::from_algebraic(&square_name).unwrap();
            let square_from_file_rank =
                Square9x9::from_file_rank(file_index as u8, rank_index as u8).unwrap();
            assert_eq!(
                square_from_file_rank,
                square_from_name,
                "square {square_name} disagrees"
            );
        }
    }
}

#[test]
fn a2v_edge() {
    let a2v = Move::from_algebraic("a2v").unwrap();
    let a2 = a2v.wall_to_square().unwrap();
    assert!(a2.is_edge());
    assert!(a2.is_west_edge());
    assert!(!a2.is_east_edge());
    assert!(!a2.is_north_edge());
    assert!(!a2.is_south_edge());
}
