//! Coordinate types for the two grids of the game: the 9x9 pawn grid
//! (81 squares) and the 8x8 wall-crossing grid (64 crossing points),
//! together with moves and algebraic-notation parsing and printing.

use vstd::prelude::*;

verus! {

/// Represents the colour of a pawn.
pub enum Colour {
    White,
    Black,
}

/// Represents the orientation of a wall.
#[derive(Debug, Clone, Copy, PartialEq, Eq, Structural, Hash)]
pub enum WallOrientation {
    Horizontal,
    Vertical,
}

/// A square of the 9x9 pawn grid, stored as an index in `0..81`;
/// `file = idx % 9`, `rank = idx / 9`.
#[derive(Debug, Clone, Copy, PartialEq, Eq, Structural, Hash)]
pub struct Square9x9 {
    pub idx: u8,
}

/// A crossing point of the 8x8 wall grid, stored as an index in `0..64`;
/// `file = idx % 8`, `rank = idx / 8`.
#[derive(Debug, Clone, Copy, PartialEq, Eq, Structural, Hash)]
pub struct Square8x8 {
    pub idx: u8,
}

/// The reasons a two-character square text can fail to parse.
#[derive(Debug, Clone, Copy, PartialEq, Eq, Structural, Hash)]
pub enum SquareParseError {
    TooLong(usize),
    TooShort,
    Empty,
    NonAlphabeticFile(char),
    NonDigitRank(char),
    FileSubtractionUnderflow(char),
    RankSubtractionUnderflow(char),
    FileOutOfRange(char),
    RankOutOfRange(char),
}

/// The code point of a character, as a mathematical integer.
pub open spec fn char_code(c: char) -> int {
    c as u32 as int
}

/// Whether a character is an ASCII letter.
pub open spec fn is_alpha_char(c: char) -> bool {
    (65 <= char_code(c) < 91) || (97 <= char_code(c) < 123)
}

/// Whether a character is an ASCII digit.
pub open spec fn is_digit_char(c: char) -> bool {
    48 <= char_code(c) < 58
}

/// The code point of a character with an upper-case ASCII letter folded
/// to lower case.
pub open spec fn lower_code(c: char) -> int {
    if 65 <= char_code(c) < 91 {
        char_code(c) + 32
    } else {
        char_code(c)
    }
}

/// The file letter for file number `f`: 'a' for 0, 'b' for 1, and so on.
pub open spec fn file_char(f: int) -> char {
    (97 + f) as char
}

/// The rank digit for rank number `r`: '1' for 0, '2' for 1, and so on.
pub open spec fn rank_char(r: int) -> char {
    (49 + r) as char
}

/// Parsing of a file character and a rank character against a grid of
/// width `w` (9 for the pawn grid, 8 for the wall-crossing grid),
/// giving the square index `file + rank * w` or the exact error.
pub open spec fn spec_parse_coord_chars(fc: char, rc: char, w: int) -> Result<
    int,
    SquareParseError,
> {
    if !is_alpha_char(fc) {
        Err(SquareParseError::NonAlphabeticFile(fc))
    } else if !is_digit_char(rc) {
        Err(SquareParseError::NonDigitRank(rc))
    } else if lower_code(fc) < 97 {
        // a lower-cased ASCII letter is never below 'a'; the variant
        // stays because the error taxonomy is a closed enumeration
        Err(SquareParseError::FileSubtractionUnderflow(fc))
    } else if char_code(rc) < 49 {
        Err(SquareParseError::RankSubtractionUnderflow(rc))
    } else if lower_code(fc) - 97 >= w {
        Err(SquareParseError::FileOutOfRange(fc))
    } else if char_code(rc) - 49 >= w {
        Err(SquareParseError::RankOutOfRange(rc))
    } else {
        Ok((lower_code(fc) - 97) + (char_code(rc) - 49) * w)
    }
}

/// Parsing of a whole square text against a grid of width `w`: the text
/// must be exactly two characters, a file letter then a rank digit.
/// Lengths are counted in characters.
pub open spec fn spec_parse_coords(s: Seq<char>, w: int) -> Result<int, SquareParseError> {
    if s.len() == 0 {
        Err(SquareParseError::Empty)
    } else if s.len() == 1 {
        Err(SquareParseError::TooShort)
    } else if s.len() > 2 {
        Err(SquareParseError::TooLong(s.len() as usize))
    } else {
        spec_parse_coord_chars(s[0], s[1], w)
    }
}

/// What parsing a 9x9 square text returns.
pub open spec fn spec_parse_square9(s: Seq<char>) -> Result<Square9x9, SquareParseError> {
    match spec_parse_coords(s, 9) {
        Ok(i) => Ok(Square9x9 { idx: i as u8 }),
        Err(e) => Err(e),
    }
}

/// What parsing an 8x8 square text returns.
pub open spec fn spec_parse_square8(s: Seq<char>) -> Result<Square8x8, SquareParseError> {
    match spec_parse_coords(s, 8) {
        Ok(i) => Ok(Square8x8 { idx: i as u8 }),
        Err(e) => Err(e),
    }
}

/// The algebraic text of a square with the given file and rank numbers.
pub open spec fn spec_coord_chars(file: int, rank: int) -> Seq<char> {
    seq![file_char(file), rank_char(rank)]
}

impl Square9x9 {
    /// A square is well formed when its index lies on the 9x9 grid.
    pub open spec fn wf(self) -> bool {
        self.idx < 81
    }

    pub open spec fn spec_file(self) -> int {
        self.idx as int % 9
    }

    pub open spec fn spec_rank(self) -> int {
        self.idx as int / 9
    }

    /// The algebraic text of the square: file letter, then rank digit.
    pub open spec fn spec_chars(self) -> Seq<char> {
        spec_coord_chars(self.spec_file(), self.spec_rank())
    }

    /// The crossing point with the same file and rank, if both are
    /// below 8; squares on the far (east or north) edge have none.
    pub open spec fn spec_crossing(self) -> Option<Square8x8> {
        if self.spec_file() < 8 && self.spec_rank() < 8 {
            Some(Square8x8 { idx: (self.spec_file() + self.spec_rank() * 8) as u8 })
        } else {
            None
        }
    }

    /// Returns the index of the square.
    pub fn index(self) -> (r: u8)
        ensures
            r == self.idx,
    {
        self.idx
    }

    /// Returns the square at the given index.
    pub fn from_index(index: u8) -> (r: Option<Self>)
        ensures
            r == if index < 81 {
                Some(Square9x9 { idx: index })
            } else {
                None::<Square9x9>
            },
    {
        if index < 81 {
            Some(Square9x9 { idx: index })
        } else {
            None
        }
    }

    /// Returns the square given by the file and rank. As in the index
    /// form, the only check made is that the combined index lies on the
    /// grid.
    pub fn from_file_rank(file: u8, rank: u8) -> (r: Option<Self>)
        ensures
            r == if file + rank * 9 < 81 {
                Some(Square9x9 { idx: (file + rank * 9) as u8 })
            } else {
                None::<Square9x9>
            },
    {
        if file < 81 && rank < 9 && file + rank * 9 < 81 {
            Some(Square9x9 { idx: file + rank * 9 })
        } else {
            None
        }
    }

    /// Returns the file of the square.
    pub fn file(self) -> (r: u8)
        requires
            self.wf(),
        ensures
            r == self.spec_file(),
    {
        self.idx % 9
    }

    /// Returns the rank of the square.
    pub fn rank(self) -> (r: u8)
        requires
            self.wf(),
        ensures
            r == self.spec_rank(),
    {
        self.idx / 9
    }

    /// Determines whether the square is on the west edge of the board.
    pub fn is_west_edge(self) -> (r: bool)
        requires
            self.wf(),
        ensures
            r == (self.spec_file() == 0),
    {
        self.idx % 9 == 0
    }

    /// Determines whether the square is on the east edge of the board.
    pub fn is_east_edge(self) -> (r: bool)
        requires
            self.wf(),
        ensures
            r == (self.spec_file() == 8),
    {
        self.idx % 9 == 8
    }

    /// Determines whether the square is on the north edge of the board.
    pub fn is_north_edge(self) -> (r: bool)
        requires
            self.wf(),
        ensures
            r == (self.spec_rank() == 8),
    {
        self.idx / 9 == 8
    }

    /// Determines whether the square is on the south edge of the board.
    pub fn is_south_edge(self) -> (r: bool)
        requires
            self.wf(),
        ensures
            r == (self.spec_rank() == 0),
    {
        self.idx / 9 == 0
    }

    /// Determines whether the square is on the edge of the board.
    pub fn is_edge(self) -> (r: bool)
        requires
            self.wf(),
        ensures
            r == (self.spec_file() == 0 || self.spec_file() == 8 || self.spec_rank() == 0
                || self.spec_rank() == 8),
    {
        self.is_west_edge() || self.is_east_edge() || self.is_north_edge() || self.is_south_edge()
    }

    /// Returns the square below the given square.
    pub fn below(self) -> (r: Option<Self>)
        requires
            self.wf(),
        ensures
            r == if self.spec_rank() > 0 {
                Some(Square9x9 { idx: (self.idx - 9) as u8 })
            } else {
                None::<Square9x9>
            },
    {
        if self.idx < 9 {
            None
        } else {
            Some(Square9x9 { idx: self.idx - 9 })
        }
    }

    /// Returns the square above the given square.
    pub fn above(self) -> (r: Option<Self>)
        requires
            self.wf(),
        ensures
            r == if self.spec_rank() < 8 {
                Some(Square9x9 { idx: (self.idx + 9) as u8 })
            } else {
                None::<Square9x9>
            },
    {
        if self.idx > 71 {
            None
        } else {
            Some(Square9x9 { idx: self.idx + 9 })
        }
    }

    /// Returns the square to the left of the given square.
    pub fn left(self) -> (r: Option<Self>)
        requires
            self.wf(),
        ensures
            r == if self.spec_file() > 0 {
                Some(Square9x9 { idx: (self.idx - 1) as u8 })
            } else {
                None::<Square9x9>
            },
    {
        if self.idx % 9 == 0 {
            None
        } else {
            Some(Square9x9 { idx: self.idx - 1 })
        }
    }

    /// Returns the square to the right of the given square.
    pub fn right(self) -> (r: Option<Self>)
        requires
            self.wf(),
        ensures
            r == if self.spec_file() < 8 {
                Some(Square9x9 { idx: (self.idx + 1) as u8 })
            } else {
                None::<Square9x9>
            },
    {
        if self.idx % 9 == 8 {
            None
        } else {
            Some(Square9x9 { idx: self.idx + 1 })
        }
    }

    /// The crossing point of the 8x8 wall grid with the same file and
    /// rank, if the square has one.
    pub fn to_square8x8(self) -> (r: Option<Square8x8>)
        requires
            self.wf(),
        ensures
            r == self.spec_crossing(),
    {
        let f = self.idx % 9;
        let k = self.idx / 9;
        if f < 8 && k < 8 {
            Some(Square8x8 { idx: f + k * 8 })
        } else {
            None
        }
    }

    /// Parses a square from its algebraic text: a file letter 'a'..'i'
    /// (case-insensitive) followed by a rank digit '1'..'9'.
    pub fn from_algebraic(s: &str) -> (r: Result<Self, SquareParseError>)
        ensures
            r == spec_parse_square9(s@),
    {
        let n = s.unicode_len();
        if n == 0 {
            Err(SquareParseError::Empty)
        } else if n == 1 {
            Err(SquareParseError::TooShort)
        } else if n > 2 {
            Err(SquareParseError::TooLong(n))
        } else {
            let fc = s.get_char(0);
            let rc = s.get_char(1);
            match parse_coord_chars(fc, rc, 9) {
                Ok(i) => Ok(Square9x9 { idx: i }),
                Err(e) => Err(e),
            }
        }
    }

    /// Prints the square in algebraic notation.
    pub fn to_algebraic(self) -> (r: String)
        requires
            self.wf(),
        ensures
            r@ == self.spec_chars(),
    {
        let f = coord_text(self.idx % 9, self.idx / 9);
        proof {
            assert(f@ =~= self.spec_chars());
        }
        f
    }
}

impl Square8x8 {
    /// A square is well formed when its index lies on the 8x8 grid.
    pub open spec fn wf(self) -> bool {
        self.idx < 64
    }

    pub open spec fn spec_file(self) -> int {
        self.idx as int % 8
    }

    pub open spec fn spec_rank(self) -> int {
        self.idx as int / 8
    }

    /// The algebraic text of the crossing point: file letter, then rank
    /// digit.
    pub open spec fn spec_chars(self) -> Seq<char> {
        spec_coord_chars(self.spec_file(), self.spec_rank())
    }

    /// Returns the index of the square.
    pub fn index(self) -> (r: u8)
        ensures
            r == self.idx,
    {
        self.idx
    }

    /// Returns the square at the given index.
    pub fn from_index(index: u8) -> (r: Option<Self>)
        ensures
            r == if index < 64 {
                Some(Square8x8 { idx: index })
            } else {
                None::<Square8x8>
            },
    {
        if index < 64 {
            Some(Square8x8 { idx: index })
        } else {
            None
        }
    }

    /// Returns the square given by the file and rank. As in the index
    /// form, the only check made is that the combined index lies on the
    /// grid.
    pub fn from_file_rank(file: u8, rank: u8) -> (r: Option<Self>)
        ensures
            r == if file + rank * 8 < 64 {
                Some(Square8x8 { idx: (file + rank * 8) as u8 })
            } else {
                None::<Square8x8>
            },
    {
        if file < 64 && rank < 8 && file + rank * 8 < 64 {
            Some(Square8x8 { idx: file + rank * 8 })
        } else {
            None
        }
    }

    /// Returns the file of the square.
    pub fn file(self) -> (r: u8)
        requires
            self.wf(),
        ensures
            r == self.spec_file(),
    {
        self.idx % 8
    }

    /// Returns the rank of the square.
    pub fn rank(self) -> (r: u8)
        requires
            self.wf(),
        ensures
            r == self.spec_rank(),
    {
        self.idx / 8
    }

    /// Determines whether the square is on the west edge of the board.
    pub fn is_west_edge(self) -> (r: bool)
        requires
            self.wf(),
        ensures
            r == (self.spec_file() == 0),
    {
        self.idx % 8 == 0
    }

    /// Determines whether the square is on the east edge of the board.
    pub fn is_east_edge(self) -> (r: bool)
        requires
            self.wf(),
        ensures
            r == (self.spec_file() == 7),
    {
        self.idx % 8 == 7
    }

    /// Determines whether the square is on the north edge of the board.
    pub fn is_north_edge(self) -> (r: bool)
        requires
            self.wf(),
        ensures
            r == (self.spec_rank() == 7),
    {
        self.idx / 8 == 7
    }

    /// Determines whether the square is on the south edge of the board.
    pub fn is_south_edge(self) -> (r: bool)
        requires
            self.wf(),
        ensures
            r == (self.spec_rank() == 0),
    {
        self.idx / 8 == 0
    }

    /// Determines whether the square is on the edge of the board.
    pub fn is_edge(self) -> (r: bool)
        requires
            self.wf(),
        ensures
            r == (self.spec_file() == 0 || self.spec_file() == 7 || self.spec_rank() == 0
                || self.spec_rank() == 7),
    {
        self.is_west_edge() || self.is_east_edge() || self.is_north_edge() || self.is_south_edge()
    }

    /// Returns the square below the given square.
    pub fn below(self) -> (r: Option<Self>)
        requires
            self.wf(),
        ensures
            r == if self.spec_rank() > 0 {
                Some(Square8x8 { idx: (self.idx - 8) as u8 })
            } else {
                None::<Square8x8>
            },
    {
        if self.idx < 8 {
            None
        } else {
            Some(Square8x8 { idx: self.idx - 8 })
        }
    }

    /// Returns the square above the given square.
    pub fn above(self) -> (r: Option<Self>)
        requires
            self.wf(),
        ensures
            r == if self.spec_rank() < 7 {
                Some(Square8x8 { idx: (self.idx + 8) as u8 })
            } else {
                None::<Square8x8>
            },
    {
        if self.idx > 55 {
            None
        } else {
            Some(Square8x8 { idx: self.idx + 8 })
        }
    }

    /// Returns the square to the left of the given square.
    pub fn left(self) -> (r: Option<Self>)
        requires
            self.wf(),
        ensures
            r == if self.spec_file() > 0 {
                Some(Square8x8 { idx: (self.idx - 1) as u8 })
            } else {
                None::<Square8x8>
            },
    {
        if self.idx % 8 == 0 {
            None
        } else {
            Some(Square8x8 { idx: self.idx - 1 })
        }
    }

    /// Returns the square to the right of the given square.
    pub fn right(self) -> (r: Option<Self>)
        requires
            self.wf(),
        ensures
            r == if self.spec_file() < 7 {
                Some(Square8x8 { idx: (self.idx + 1) as u8 })
            } else {
                None::<Square8x8>
            },
    {
        if self.idx % 8 == 7 {
            None
        } else {
            Some(Square8x8 { idx: self.idx + 1 })
        }
    }

    /// Parses a crossing point from its algebraic text: a file letter
    /// 'a'..'h' (case-insensitive) followed by a rank digit '1'..'8'.
    pub fn from_algebraic(s: &str) -> (r: Result<Self, SquareParseError>)
        ensures
            r == spec_parse_square8(s@),
    {
        let n = s.unicode_len();
        if n == 0 {
            Err(SquareParseError::Empty)
        } else if n == 1 {
            Err(SquareParseError::TooShort)
        } else if n > 2 {
            Err(SquareParseError::TooLong(n))
        } else {
            let fc = s.get_char(0);
            let rc = s.get_char(1);
            match parse_coord_chars(fc, rc, 8) {
                Ok(i) => Ok(Square8x8 { idx: i }),
                Err(e) => Err(e),
            }
        }
    }

    /// Prints the crossing point in algebraic notation.
    pub fn to_algebraic(self) -> (r: String)
        requires
            self.wf(),
        ensures
            r@ == self.spec_chars(),
    {
        let f = coord_text(self.idx % 8, self.idx / 8);
        proof {
            assert(f@ =~= self.spec_chars());
        }
        f
    }
}

/// Parses a file character and a rank character against a grid of width
/// `w`, mirroring `spec_parse_coord_chars`.
fn parse_coord_chars(fc: char, rc: char, w: u8) -> (r: Result<u8, SquareParseError>)
    requires
        w == 8 || w == 9,
    ensures
        r == match spec_parse_coord_chars(fc, rc, w as int) {
            Ok(i) => Ok::<u8, SquareParseError>(i as u8),
            Err(e) => Err::<u8, SquareParseError>(e),
        },
{
    let fu: u32 = fc as u32;
    let ru: u32 = rc as u32;
    if !((65 <= fu && fu < 91) || (97 <= fu && fu < 123)) {
        return Err(SquareParseError::NonAlphabeticFile(fc));
    }
    if !(48 <= ru && ru < 58) {
        return Err(SquareParseError::NonDigitRank(rc));
    }
    let fl: u32 = if 65 <= fu && fu < 91 {
        fu + 32
    } else {
        fu
    };
    if fl < 97 {
        return Err(SquareParseError::FileSubtractionUnderflow(fc));
    }
    if ru < 49 {
        return Err(SquareParseError::RankSubtractionUnderflow(rc));
    }
    let fi: u32 = fl - 97;
    let ri: u32 = ru - 49;
    if fi >= w as u32 {
        return Err(SquareParseError::FileOutOfRange(fc));
    }
    if ri >= w as u32 {
        return Err(SquareParseError::RankOutOfRange(rc));
    }
    Ok((fi + ri * w as u32) as u8)
}

/// The algebraic text for a file number below 9 and a rank number below
/// 9, as an owned string of two characters.
fn coord_text(file: u8, rank: u8) -> (r: String)
    requires
        file < 9,
        rank < 9,
    ensures
        r@ == spec_coord_chars(file as int, rank as int),
{
    let fs = file_text(file);
    let rs = rank_text(rank);
    let out = fs.to_owned().concat(rs);
    proof {
        assert(out@ =~= spec_coord_chars(file as int, rank as int));
    }
    out
}

/// The one-character text of a file letter.
fn file_text(file: u8) -> (r: &'static str)
    requires
        file < 9,
    ensures
        r@ =~= seq![file_char(file as int)],
{
    proof {
        reveal_strlit("a");
        reveal_strlit("b");
        reveal_strlit("c");
        reveal_strlit("d");
        reveal_strlit("e");
        reveal_strlit("f");
        reveal_strlit("g");
        reveal_strlit("h");
        reveal_strlit("i");
    }
    match file {
        0 => "a",
        1 => "b",
        2 => "c",
        3 => "d",
        4 => "e",
        5 => "f",
        6 => "g",
        7 => "h",
        _ => "i",
    }
}

/// The one-character text of a rank digit.
fn rank_text(rank: u8) -> (r: &'static str)
    requires
        rank < 9,
    ensures
        r@ =~= seq![rank_char(rank as int)],
{
    proof {
        reveal_strlit("1");
        reveal_strlit("2");
        reveal_strlit("3");
        reveal_strlit("4");
        reveal_strlit("5");
        reveal_strlit("6");
        reveal_strlit("7");
        reveal_strlit("8");
        reveal_strlit("9");
    }
    match rank {
        0 => "1",
        1 => "2",
        2 => "3",
        3 => "4",
        4 => "5",
        5 => "6",
        6 => "7",
        7 => "8",
        _ => "9",
    }
}

/// Represents a move: either a pawn step to a square of the 9x9 grid,
/// or a wall placed at a crossing point of the 8x8 grid with an
/// orientation.
#[derive(Debug, Clone, Copy, PartialEq, Eq, Structural, Hash)]
pub enum Move {
    Pawn { to_square: Square9x9 },
    Wall { to_square: Square8x8, orientation: WallOrientation },
}

/// The reasons a move text can fail to parse.
#[derive(Debug, Clone, Copy, PartialEq, Eq, Structural, Hash)]
pub enum MoveParseError {
    Square9x9ParseError(SquareParseError),
    Square8x8ParseError(SquareParseError),
    AlignmentParseError(char),
    TooShort,
    TooLong(usize),
    Empty,
}

/// The orientation letter appended to a wall move's square text.
pub open spec fn orientation_char(o: WallOrientation) -> char {
    match o {
        WallOrientation::Horizontal => 'h',
        WallOrientation::Vertical => 'v',
    }
}

/// What parsing a move text returns: two characters parse as a pawn
/// move, three as a wall move whose last character gives the
/// orientation. Lengths are counted in characters.
pub open spec fn spec_parse_move(s: Seq<char>) -> Result<Move, MoveParseError> {
    if s.len() == 0 {
        Err(MoveParseError::Empty)
    } else if s.len() == 1 {
        Err(MoveParseError::TooShort)
    } else if s.len() == 2 {
        match spec_parse_square9(s) {
            Ok(sq) => Ok(Move::Pawn { to_square: sq }),
            Err(e) => Err(MoveParseError::Square9x9ParseError(e)),
        }
    } else if s.len() == 3 {
        match spec_parse_square8(s.take(2)) {
            Ok(sq) => if s[2] == 'h' {
                Ok(Move::Wall { to_square: sq, orientation: WallOrientation::Horizontal })
            } else if s[2] == 'v' {
                Ok(Move::Wall { to_square: sq, orientation: WallOrientation::Vertical })
            } else {
                Err(MoveParseError::AlignmentParseError(s[2]))
            },
            Err(e) => Err(MoveParseError::Square8x8ParseError(e)),
        }
    } else {
        Err(MoveParseError::TooLong(s.len() as usize))
    }
}

impl Move {
    /// A move is well formed when its destination lies on its grid.
    pub open spec fn wf(self) -> bool {
        match self {
            Move::Pawn { to_square } => to_square.wf(),
            Move::Wall { to_square, .. } => to_square.wf(),
        }
    }

    /// The algebraic text of the move: the destination square's text,
    /// with the orientation letter appended for a wall move.
    pub open spec fn spec_chars(self) -> Seq<char> {
        match self {
            Move::Pawn { to_square } => to_square.spec_chars(),
            Move::Wall { to_square, orientation } => to_square.spec_chars().push(
                orientation_char(orientation),
            ),
        }
    }

    /// Gets the to-square of a pawn move.
    pub fn pawn_to_square(self) -> (r: Option<Square9x9>)
        ensures
            r == match self {
                Move::Pawn { to_square } => Some(to_square),
                Move::Wall { .. } => None::<Square9x9>,
            },
    {
        match self {
            Move::Pawn { to_square } => Some(to_square),
            Move::Wall { .. } => None,
        }
    }

    /// Gets the to-square of a wall move.
    pub fn wall_to_square(self) -> (r: Option<Square8x8>)
        ensures
            r == match self {
                Move::Pawn { .. } => None::<Square8x8>,
                Move::Wall { to_square, .. } => Some(to_square),
            },
    {
        match self {
            Move::Pawn { .. } => None,
            Move::Wall { to_square, .. } => Some(to_square),
        }
    }

    /// Parses a move from its algebraic text.
    pub fn from_algebraic(s: &str) -> (r: Result<Self, MoveParseError>)
        ensures
            r == spec_parse_move(s@),
    {
        let n = s.unicode_len();
        if n == 0 {
            Err(MoveParseError::Empty)
        } else if n == 1 {
            Err(MoveParseError::TooShort)
        } else if n == 2 {
            match Square9x9::from_algebraic(s) {
                Ok(sq) => Ok(Move::Pawn { to_square: sq }),
                Err(e) => Err(MoveParseError::Square9x9ParseError(e)),
            }
        } else if n == 3 {
            let fc = s.get_char(0);
            let rc = s.get_char(1);
            proof {
                assert(s@.take(2).len() == 2);
                assert(s@.take(2)[0] == fc && s@.take(2)[1] == rc);
            }
            match parse_coord_chars(fc, rc, 8) {
                Ok(i) => {
                    let oc = s.get_char(2);
                    if oc == 'h' {
                        Ok(
                            Move::Wall {
                                to_square: Square8x8 { idx: i },
                                orientation: WallOrientation::Horizontal,
                            },
                        )
                    } else if oc == 'v' {
                        Ok(
                            Move::Wall {
                                to_square: Square8x8 { idx: i },
                                orientation: WallOrientation::Vertical,
                            },
                        )
                    } else {
                        Err(MoveParseError::AlignmentParseError(oc))
                    }
                },
                Err(e) => Err(MoveParseError::Square8x8ParseError(e)),
            }
        } else {
            Err(MoveParseError::TooLong(n))
        }
    }

    /// Prints the move in algebraic notation.
    pub fn to_algebraic(self) -> (r: String)
        requires
            self.wf(),
        ensures
            r@ == self.spec_chars(),
    {
        match self {
            Move::Pawn { to_square } => to_square.to_algebraic(),
            Move::Wall { to_square, orientation } => {
                let base = to_square.to_algebraic();
                proof {
                    reveal_strlit("h");
                    reveal_strlit("v");
                }
                let out = match orientation {
                    WallOrientation::Horizontal => base.concat("h"),
                    WallOrientation::Vertical => base.concat("v"),
                };
                proof {
                    assert(out@ =~= self.spec_chars());
                }
                out
            },
        }
    }
}

/// Round trip for moves: parsing the algebraic text of any well-formed
/// move gives back exactly that move.
pub proof fn lemma_move_round_trip(m: Move)
    requires
        m.wf(),
    ensures
        spec_parse_move(m.spec_chars()) == Ok::<Move, MoveParseError>(m),
{
    match m {
        Move::Pawn { to_square } => {
            lemma_square9_round_trip(to_square);
        },
        Move::Wall { to_square, orientation } => {
            let s = m.spec_chars();
            assert(s.len() == 3);
            assert(s.take(2) =~= to_square.spec_chars());
            lemma_square8_round_trip(to_square);
            assert(char_code(s[2]) == if orientation is Horizontal {
                104int
            } else {
                118int
            });
            assert('h' as u32 == 104 && 'v' as u32 == 118);
        },
    }
}

/// Round trip for 9x9 squares: parsing the algebraic text of any square
/// of the grid gives back exactly that square.
pub proof fn lemma_square9_round_trip(sq: Square9x9)
    requires
        sq.wf(),
    ensures
        spec_parse_square9(sq.spec_chars()) == Ok::<Square9x9, SquareParseError>(sq),
{
    let f = sq.spec_file();
    let k = sq.spec_rank();
    assert(0 <= f < 9 && 0 <= k < 9);
    let fc = file_char(f);
    let rc = rank_char(k);
    assert(char_code(fc) == 97 + f);
    assert(char_code(rc) == 49 + k);
    assert(sq.spec_chars().len() == 2);
    assert(spec_parse_coords(sq.spec_chars(), 9) == spec_parse_coord_chars(fc, rc, 9));
    assert(spec_parse_coord_chars(fc, rc, 9) == Ok::<int, SquareParseError>(f + k * 9));
    assert(f + k * 9 == sq.idx as int);
}

/// Round trip for 8x8 crossing points: parsing the algebraic text of
/// any crossing point of the grid gives back exactly that point.
pub proof fn lemma_square8_round_trip(sq: Square8x8)
    requires
        sq.wf(),
    ensures
        spec_parse_square8(sq.spec_chars()) == Ok::<Square8x8, SquareParseError>(sq),
{
    let f = sq.spec_file();
    let k = sq.spec_rank();
    assert(0 <= f < 8 && 0 <= k < 8);
    let fc = file_char(f);
    let rc = rank_char(k);
    assert(char_code(fc) == 97 + f);
    assert(char_code(rc) == 49 + k);
    assert(sq.spec_chars().len() == 2);
    assert(spec_parse_coords(sq.spec_chars(), 8) == spec_parse_coord_chars(fc, rc, 8));
    assert(spec_parse_coord_chars(fc, rc, 8) == Ok::<int, SquareParseError>(f + k * 8));
    assert(f + k * 8 == sq.idx as int);
}

} // verus!
