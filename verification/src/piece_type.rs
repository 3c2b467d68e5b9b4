use vstd::prelude::*;

mod by_piece_type;

pub use by_piece_type::ByPieceType;

verus! {

/// The number of piece types in standard chess
pub const NUM_PIECE_TYPES: usize = 6;

/// A specific type of piece that can occupy a square or be moved.
#[derive(Copy, Clone, Debug, PartialEq, Eq, Structural, PartialOrd, Ord, Hash)]
pub enum PieceType {
    /// A pawn that can only push forward one square at a time, except for its first move, which can move two squares forward (if unobstructed).
    /// Can also attack diagonally forward-left/right.  Upon reaching the opposite sides back-rank the pawn will promote.
    Pawn,
    /// A knight can move in an L shape (2x1) and can move to any square.
    Knight,
    /// A bishop can move diagonally on either axis as far is it can without capturing or bumping into its own side's pieces.
    Bishop,
    /// A rook can move cardinally on either axis as far is it can without capturing or bumping into its own side's pieces.
    Rook,
    /// Most powerful piece, featuring the same moves as the bishop and rook combined.
    Queen,
    /// The piece that must be protected in order to win.
    King,
}

/// The index of a piece type (pawn 0 .. king 5)
pub open spec fn piece_index(piece: PieceType) -> int {
    piece as u8 as int
}

/// The pieces that slide along rays
#[derive(Copy, Clone, Debug, PartialEq, Eq, Structural)]
pub enum SlidingPieceType {
    /// Slides along diagonals
    Bishop,
    /// Slides along ranks and files
    Rook,
    /// Slides along diagonals, ranks and files
    Queen,
}

/// Every piece but the pawn
#[derive(Copy, Clone, Debug, PartialEq, Eq, Structural)]
pub enum NonPawnPieceType {
    /// A knight
    Knight,
    /// A bishop
    Bishop,
    /// A rook
    Rook,
    /// A queen
    Queen,
    /// A king
    King,
}

impl PieceType {
    /// Array of all six pieces (Pawn, Knight, Bishop, Rook, Queen, King)
    pub const PIECES: [PieceType; 6] = [PieceType::Pawn, PieceType::Knight, PieceType::Bishop, PieceType::Rook, PieceType::Queen, PieceType::King];

    /// The index of the piece type (pawn 0 .. king 5)
    pub fn index(self) -> (res: usize)
        ensures
            res == piece_index(self),
            res < 6,
    {
        self as usize
    }

    /// Get the UCI standard character representation for a piece in lowercase.
    pub fn get_lower_char(&self) -> (res: char)
        ensures
            res == spec_lower_char(*self),
    {
        match self {
            Self::Pawn => 'p',
            Self::Knight => 'n',
            Self::Bishop => 'b',
            Self::Rook => 'r',
            Self::Queen => 'q',
            Self::King => 'k',
        }
    }

    /// Get the UCI standard character representation for a piece in uppercase.
    pub fn get_upper_char(&self) -> (res: char)
        ensures
            res == spec_upper_char(*self),
    {
        match self {
            Self::Pawn => 'P',
            Self::Knight => 'N',
            Self::Bishop => 'B',
            Self::Rook => 'R',
            Self::Queen => 'Q',
            Self::King => 'K',
        }
    }
}

/// The lowercase UCI character of a piece
pub open spec fn spec_lower_char(piece: PieceType) -> char {
    match piece {
        PieceType::Pawn => 'p',
        PieceType::Knight => 'n',
        PieceType::Bishop => 'b',
        PieceType::Rook => 'r',
        PieceType::Queen => 'q',
        PieceType::King => 'k',
    }
}

/// The uppercase UCI character of a piece
pub open spec fn spec_upper_char(piece: PieceType) -> char {
    match piece {
        PieceType::Pawn => 'P',
        PieceType::Knight => 'N',
        PieceType::Bishop => 'B',
        PieceType::Rook => 'R',
        PieceType::Queen => 'Q',
        PieceType::King => 'K',
    }
}

} // verus!
