use vstd::prelude::*;

use core::convert::TryFrom;
use vstd::std_specs::convert::TryFromSpecImpl;

use crate::piece_type::PieceType;
use crate::player::Player;

verus! {

/// A piece type owned by a player
#[derive(Copy, Clone, Debug, PartialEq, Eq, Structural)]
pub struct SidedPiece {
    /// The kind of piece
    pub piece_type: PieceType,
    /// The owner of the piece
    pub player: Player,
}

/// The error for a character that names no piece
#[derive(Copy, Clone, Debug, PartialEq, Eq, Structural)]
pub struct IllegalSidedPiece(pub char);

/// The piece named by a FEN character (uppercase for white, lowercase for black)
pub open spec fn spec_piece_from_char(c: char) -> Option<SidedPiece> {
    let white = Player::White;
    let black = Player::Black;
    if c == 'P' { Some(SidedPiece { piece_type: PieceType::Pawn, player: white }) }
    else if c == 'p' { Some(SidedPiece { piece_type: PieceType::Pawn, player: black }) }
    else if c == 'N' { Some(SidedPiece { piece_type: PieceType::Knight, player: white }) }
    else if c == 'n' { Some(SidedPiece { piece_type: PieceType::Knight, player: black }) }
    else if c == 'B' { Some(SidedPiece { piece_type: PieceType::Bishop, player: white }) }
    else if c == 'b' { Some(SidedPiece { piece_type: PieceType::Bishop, player: black }) }
    else if c == 'R' { Some(SidedPiece { piece_type: PieceType::Rook, player: white }) }
    else if c == 'r' { Some(SidedPiece { piece_type: PieceType::Rook, player: black }) }
    else if c == 'Q' { Some(SidedPiece { piece_type: PieceType::Queen, player: white }) }
    else if c == 'q' { Some(SidedPiece { piece_type: PieceType::Queen, player: black }) }
    else if c == 'K' { Some(SidedPiece { piece_type: PieceType::King, player: white }) }
    else if c == 'k' { Some(SidedPiece { piece_type: PieceType::King, player: black }) }
    else { None }
}

/// The FEN character of a piece (uppercase for white, lowercase for black)
pub open spec fn spec_piece_char(piece: SidedPiece) -> char {
    match piece.player {
        Player::White => crate::piece_type::spec_upper_char(piece.piece_type),
        Player::Black => crate::piece_type::spec_lower_char(piece.piece_type),
    }
}

impl SidedPiece {
    /// Create a new `SidedPiece`
    pub fn new(piece_type: PieceType, player: Player) -> (res: Self)
        ensures
            res.piece_type == piece_type,
            res.player == player,
    {
        Self { piece_type, player }
    }

    /// Parse a FEN piece character (uppercase for white, lowercase for black)
    ///
    /// # Errors
    /// Errors with [`IllegalSidedPiece`] holding the character when it names no piece
    pub fn try_from_char(c: char) -> (res: Result<Self, IllegalSidedPiece>)
        ensures
            res is Ok <==> spec_piece_from_char(c) is Some,
            res matches Ok(p) ==> spec_piece_from_char(c) == Some(p),
            res matches Err(e) ==> e.0 == c,
    {
        let (piece_type, player) = match c {
            'P' => (PieceType::Pawn, Player::White),
            'p' => (PieceType::Pawn, Player::Black),
            'N' => (PieceType::Knight, Player::White),
            'n' => (PieceType::Knight, Player::Black),
            'B' => (PieceType::Bishop, Player::White),
            'b' => (PieceType::Bishop, Player::Black),
            'R' => (PieceType::Rook, Player::White),
            'r' => (PieceType::Rook, Player::Black),
            'Q' => (PieceType::Queen, Player::White),
            'q' => (PieceType::Queen, Player::Black),
            'K' => (PieceType::King, Player::White),
            'k' => (PieceType::King, Player::Black),
            _ => return Err(IllegalSidedPiece(c)),
        };
        Ok(SidedPiece { piece_type, player })
    }

    /// The FEN character of the piece (uppercase for white, lowercase for black)
    pub fn to_char(&self) -> (res: char)
        ensures
            res == spec_piece_char(*self),
    {
        match self.player {
            Player::White => self.piece_type.get_upper_char(),
            Player::Black => self.piece_type.get_lower_char(),
        }
    }
}

/// The character of a piece parses back to the piece
pub proof fn lemma_piece_char_roundtrip(piece: SidedPiece)
    ensures
        spec_piece_from_char(spec_piece_char(piece)) == Some(piece),
{
}

impl TryFrom<char> for SidedPiece {
    type Error = IllegalSidedPiece;

    fn try_from(c: char) -> (res: Result<SidedPiece, IllegalSidedPiece>) {
        Self::try_from_char(c)
    }
}

impl TryFromSpecImpl<char> for SidedPiece {
    open spec fn obeys_try_from_spec() -> bool {
        true
    }

    open spec fn try_from_spec(c: char) -> Result<SidedPiece, IllegalSidedPiece> {
        match spec_piece_from_char(c) {
            Some(piece) => Ok(piece),
            None => Err(IllegalSidedPiece(c)),
        }
    }
}

} // verus!
