use vstd::prelude::*;

use crate::bitboard::BoardMask;

mod by_square;

pub use by_square::BySquare;

verus! {

/// How many rows on the board
pub const NUM_RANKS: usize = 8;

/// How many columns on the board
pub const NUM_FILES: usize = 8;

/// How many squares there are on the board
pub const NUM_SQUARES: usize = 64;

/// A single tile on a chess board.
///
/// Squares are numbered from the bottom left (A1 = 0) going files A->H and then ranks 1->8,
/// so the index of a square is `rank * 8 + file`.
#[allow(missing_docs)]
#[derive(Copy, Clone, Debug, PartialEq, Eq, Structural, PartialOrd, Ord, Hash)]
pub enum Square {
    A1, B1, C1, D1, E1, F1, G1, H1,
    A2, B2, C2, D2, E2, F2, G2, H2,
    A3, B3, C3, D3, E3, F3, G3, H3,
    A4, B4, C4, D4, E4, F4, G4, H4,
    A5, B5, C5, D5, E5, F5, G5, H5,
    A6, B6, C6, D6, E6, F6, G6, H6,
    A7, B7, C7, D7, E7, F7, G7, H7,
    A8, B8, C8, D8, E8, F8, G8, H8,
}

/// The error that occurs when attempting to create a square that wouldn't be valid for a standard chess board
#[derive(Copy, Clone, Debug, PartialEq, Eq, Structural)]
pub struct IllegalSquare;

/// The board index (0..64) of a square
pub open spec fn sq_index(sq: Square) -> int {
    sq as u8 as int
}

/// The file (0 for A .. 7 for H) of a board index
pub open spec fn index_file(i: int) -> int {
    i % 8
}

/// The rank (0 for rank 1 .. 7 for rank 8) of a board index
pub open spec fn index_rank(i: int) -> int {
    i / 8
}

/// The square at a board index, if the index is on the board
pub open spec fn square_at(i: int) -> Square
    recommends
        0 <= i < 64,
{
    Square::SQUARES[i]
}

/// The square on a rank (0 for rank 1 .. 7 for rank 8) and a file (0 for A .. 7 for H)
pub open spec fn square_on(rank: int, file: int) -> Square {
    square_at(rank * 8 + file)
}

/// The square on a rank and file of the board lies on that rank and file
pub proof fn lemma_square_on(rank: int, file: int)
    requires
        0 <= rank < 8,
        0 <= file < 8,
    ensures
        sq_index(square_on(rank, file)) == rank * 8 + file,
        index_rank(sq_index(square_on(rank, file))) == rank,
        index_file(sq_index(square_on(rank, file))) == file,
{
    lemma_index_square_at(rank * 8 + file);
    assert((rank * 8 + file) / 8 == rank && (rank * 8 + file) % 8 == file) by (nonlinear_arith)
        requires
            0 <= rank < 8,
            0 <= file < 8,
    ;
}

/// Every square has an index on the board
pub proof fn lemma_square_index_range(sq: Square)
    ensures
        0 <= sq_index(sq) < 64,
{
}

/// Two squares with the same index are the same square
pub proof fn lemma_square_index_injective(a: Square, b: Square)
    ensures
        sq_index(a) == sq_index(b) ==> a == b,
{
}

/// Looking up a square by its own index gives the square back
pub proof fn lemma_square_at_index(sq: Square)
    ensures
        square_at(sq_index(sq)) == sq,
{
    assert(Square::SQUARES@[sq_index(sq)] == sq);
}

/// The index of the square at a board index is that index
pub proof fn lemma_index_square_at(i: int)
    requires
        0 <= i < 64,
    ensures
        sq_index(square_at(i)) == i,
{
    assert(sq_index(Square::SQUARES@[i]) == i);
}

impl Square {
    /// Array of every square starting from the bottom left going files A->H and cycling through ranks 1->8
    pub const SQUARES: [Square; 64] = [
        Square::A1, Square::B1, Square::C1, Square::D1, Square::E1, Square::F1, Square::G1, Square::H1,
        Square::A2, Square::B2, Square::C2, Square::D2, Square::E2, Square::F2, Square::G2, Square::H2,
        Square::A3, Square::B3, Square::C3, Square::D3, Square::E3, Square::F3, Square::G3, Square::H3,
        Square::A4, Square::B4, Square::C4, Square::D4, Square::E4, Square::F4, Square::G4, Square::H4,
        Square::A5, Square::B5, Square::C5, Square::D5, Square::E5, Square::F5, Square::G5, Square::H5,
        Square::A6, Square::B6, Square::C6, Square::D6, Square::E6, Square::F6, Square::G6, Square::H6,
        Square::A7, Square::B7, Square::C7, Square::D7, Square::E7, Square::F7, Square::G7, Square::H7,
        Square::A8, Square::B8, Square::C8, Square::D8, Square::E8, Square::F8, Square::G8, Square::H8,
    ];

    /// The board index (0..64) of this square
    pub fn index(self) -> (res: u8)
        ensures
            res == sq_index(self),
            res < 64,
    {
        self as u8
    }

    /// Convert a board index to a square
    ///
    /// # Errors
    /// Errors with [`IllegalSquare`] when the index is not below 64.
    pub fn try_from_index(index: u8) -> (res: Result<Self, IllegalSquare>)
        ensures
            index < 64 <==> res is Ok,
            res matches Ok(sq) ==> sq_index(sq) == index,
    {
        if index < 64 {
            proof {
                lemma_index_square_at(index as int);
            }
            Ok(Self::SQUARES[index as usize])
        } else {
            Err(IllegalSquare)
        }
    }

    /// The square on a rank (0 for rank 1 .. 7 for rank 8) and a file (0 for A .. 7 for H)
    pub fn on_rank_file(rank: u8, file: u8) -> (res: Square)
        requires
            rank < 8,
            file < 8,
        ensures
            res == square_on(rank as int, file as int),
            sq_index(res) == rank * 8 + file,
            index_rank(sq_index(res)) == rank,
            index_file(sq_index(res)) == file,
    {
        proof {
            lemma_square_on(rank as int, file as int);
        }
        Self::SQUARES[(rank * 8 + file) as usize]
    }

    /// Convert a square to a single bit set mask
    pub fn to_mask(self) -> (res: BoardMask)
        ensures
            res.0 == 1u64 << (sq_index(self) as u64),
            res == BoardMask::single(sq_index(self)),
    {
        BoardMask(1u64 << self.index() as u64)
    }

    /// Get the rank index offset 0-7 for ranks 1-8
    pub fn rank(self) -> (res: usize)
        ensures
            res == index_rank(sq_index(self)),
            res < 8,
    {
        (self.index() / 8) as usize
    }

    /// Get the file index offset 0-7 for files A-H
    pub fn file(self) -> (res: usize)
        ensures
            res == index_file(sq_index(self)),
            res < 8,
    {
        (self.index() % 8) as usize
    }

    /// 2 character, case-insensitive, file-rank string parse into a `Square`
    ///
    /// # Errors
    /// Will error if input is not a valid square on a typical 8x8 board (files A-H, ranks 1-8).
    pub fn parse(input: &str) -> (res: Result<Self, IllegalSquare>)
        ensures
            res is Ok <==> spec_parse_square(input@) is Some,
            res matches Ok(sq) ==> spec_parse_square(input@) == Some(sq),
    {
        if input.unicode_len() != 2 {
            return Err(IllegalSquare);
        }
        let file_char = input.get_char(0);
        let rank_char = input.get_char(1);
        match (file_from_char(file_char), rank_from_char(rank_char)) {
            (Some(file), Some(rank)) => {
                proof {
                    lemma_index_square_at(rank * 8 + file);
                }
                Ok(Self::SQUARES[(rank * 8 + file) as usize])
            },
            _ => Err(IllegalSquare),
        }
    }

    /// The lowercase, 2 character, file-rank name of the square (ie. `"e4"`)
    pub fn to_uci_string(self) -> (res: String)
        ensures
            res@ == spec_square_name(self),
    {
        let mut name = String::from_str(file_name(self.file() as u8));
        name.append(rank_name(self.rank() as u8));
        name
    }
}

/// The file (0-7) a (case-insensitive) file letter `a`-`h` names
pub open spec fn spec_file_from_char(c: char) -> Option<int> {
    if 'a' <= c && c <= 'h' {
        Some(c as int - 'a' as int)
    } else if 'A' <= c && c <= 'H' {
        Some(c as int - 'A' as int)
    } else {
        None
    }
}

/// The rank (0-7) a rank digit `1`-`8` names
pub open spec fn spec_rank_from_char(c: char) -> Option<int> {
    if '1' <= c && c <= '8' {
        Some(c as int - '1' as int)
    } else {
        None
    }
}

/// The square named by a two character file-rank string, if any
pub open spec fn spec_parse_square(s: Seq<char>) -> Option<Square> {
    if s.len() == 2 {
        match (spec_file_from_char(s[0]), spec_rank_from_char(s[1])) {
            (Some(file), Some(rank)) => Some(square_at(rank * 8 + file)),
            _ => None,
        }
    } else {
        None
    }
}

/// The lowercase file letter of a file index
pub open spec fn spec_file_char(file: int) -> char {
    ('a' as int + file) as char
}

/// The rank digit of a rank index
pub open spec fn spec_rank_char(rank: int) -> char {
    ('1' as int + rank) as char
}

/// The lowercase two character name of a square
pub open spec fn spec_square_name(sq: Square) -> Seq<char> {
    seq![spec_file_char(index_file(sq_index(sq))), spec_rank_char(index_rank(sq_index(sq)))]
}

/// The name of a square is two characters, neither of them whitespace
pub proof fn lemma_square_name_chars(sq: Square)
    ensures
        spec_square_name(sq).len() == 2,
        crate::text::no_whitespace(spec_square_name(sq)),
{
    lemma_square_index_range(sq);
}

fn file_from_char(c: char) -> (res: Option<u8>)
    ensures
        res matches Some(f) ==> f < 8,
        res.is_some() <==> spec_file_from_char(c).is_some(),
        res matches Some(f) ==> spec_file_from_char(c) == Some(f as int),
{
    if 'a' <= c && c <= 'h' {
        Some((c as u32 - 'a' as u32) as u8)
    } else if 'A' <= c && c <= 'H' {
        Some((c as u32 - 'A' as u32) as u8)
    } else {
        None
    }
}

fn rank_from_char(c: char) -> (res: Option<u8>)
    ensures
        res matches Some(r) ==> r < 8,
        res.is_some() <==> spec_rank_from_char(c).is_some(),
        res matches Some(r) ==> spec_rank_from_char(c) == Some(r as int),
{
    if '1' <= c && c <= '8' {
        Some((c as u32 - '1' as u32) as u8)
    } else {
        None
    }
}

/// The single letter name of a file
fn file_name(file: u8) -> (res: &'static str)
    requires
        file < 8,
    ensures
        res@ == seq![spec_file_char(file as int)],
{
    match file {
        0 => { proof { reveal_strlit("a"); } "a" },
        1 => { proof { reveal_strlit("b"); } "b" },
        2 => { proof { reveal_strlit("c"); } "c" },
        3 => { proof { reveal_strlit("d"); } "d" },
        4 => { proof { reveal_strlit("e"); } "e" },
        5 => { proof { reveal_strlit("f"); } "f" },
        6 => { proof { reveal_strlit("g"); } "g" },
        _ => { proof { reveal_strlit("h"); } "h" },
    }
}

/// The single digit name of a rank
fn rank_name(rank: u8) -> (res: &'static str)
    requires
        rank < 8,
    ensures
        res@ == seq![spec_rank_char(rank as int)],
{
    match rank {
        0 => { proof { reveal_strlit("1"); } "1" },
        1 => { proof { reveal_strlit("2"); } "2" },
        2 => { proof { reveal_strlit("3"); } "3" },
        3 => { proof { reveal_strlit("4"); } "4" },
        4 => { proof { reveal_strlit("5"); } "5" },
        5 => { proof { reveal_strlit("6"); } "6" },
        6 => { proof { reveal_strlit("7"); } "7" },
        _ => { proof { reveal_strlit("8"); } "8" },
    }
}

/// Parsing the name of any square gives the square back
pub proof fn lemma_parse_square_name(sq: Square)
    ensures
        spec_parse_square(spec_square_name(sq)) == Some(sq),
{
    let i = sq_index(sq);
    lemma_square_index_range(sq);
    lemma_square_at_index(sq);
    assert(index_rank(i) * 8 + index_file(i) == i);
}

} // verus!
