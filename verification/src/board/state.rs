use vstd::prelude::*;

use crate::bitboard::BoardMask;
use crate::castles::{rights_bits, CastleDirection, CastleRights, Castles};
use crate::piece_type::{ByPieceType, PieceType};
use crate::player::{ByPlayer, Player};
use crate::score::PlyCount;
use crate::square::{sq_index, Square};

verus! {

/// The internal state for a board that should be kept separate in order to persist it between moves
#[derive(Copy, Clone, Debug, PartialEq, Eq)]
pub struct State {
    /// The pieces giving check to the side to move
    pub checkers: BoardMask,
    /// By each side, the sniper pieces pinning a piece of that side to its king
    pub pinners_for: ByPlayer<BoardMask>,
    /// By each side, the pieces (of either side) that alone block a sniper from that side's king
    pub blockers_for: ByPlayer<BoardMask>,
    /// By each piece type, the squares from which such a piece of the side to move would give check
    pub check_squares: ByPieceType<BoardMask>,
    /// The piece captured by the previous move
    pub captured_piece: Option<PieceType>,
    /// The square jumped over by the previous move, when it was a double pawn push
    pub en_passant_square: Option<Square>,
    /// The castle rights and castling squares
    pub castles: Castles,
    /// Half moves since the last capture or pawn move
    pub halfmove_clock: PlyCount,
}

/// Every square is off the mask
pub open spec fn is_empty_mask(mask: BoardMask) -> bool {
    forall|i: int| 0 <= i < 64 ==> !#[trigger] mask.has(i)
}

/// The castling squares of two castles agree, and so does the chess 960 flag
pub open spec fn same_castle_squares(a: Castles, b: Castles) -> bool {
    &&& forall|side: Player| #[trigger] a.spec_king_from(side) == b.spec_king_from(side)
    &&& forall|side: Player, direction: CastleDirection| #[trigger] a.spec_rook_from(side, direction)
        == b.spec_rook_from(side, direction)
    &&& a.spec_is_chess_960() == b.spec_is_chess_960()
}

impl State {
    /// The state of an empty board: no masks, no capture, no en-passant square, a zero clock
    /// and standard castling squares without rights
    pub open spec fn is_initial(&self) -> bool {
        &&& self.checkers.0 == 0
        &&& self.pinners_for.at(Player::White).0 == 0
        &&& self.pinners_for.at(Player::Black).0 == 0
        &&& self.blockers_for.at(Player::White).0 == 0
        &&& self.blockers_for.at(Player::Black).0 == 0
        &&& forall|p: PieceType| #[trigger] self.check_squares.at(p).0 == 0
        &&& self.captured_piece is None
        &&& self.en_passant_square is None
        &&& self.halfmove_clock == 0
        &&& self.castles.spec_rights() == CastleRights::NoRights
        &&& self.castles.has_standard_squares()
        &&& !self.castles.spec_is_chess_960()
    }

    /// State for an empty board
    pub fn empty() -> (res: Self)
        ensures
            res.is_initial(),
    {
        Self {
            checkers: BoardMask::empty(),
            pinners_for: ByPlayer::new(BoardMask::empty()),
            blockers_for: ByPlayer::new(BoardMask::empty()),
            check_squares: ByPieceType::new(BoardMask::empty()),
            captured_piece: None,
            en_passant_square: None,
            halfmove_clock: 0,
            castles: Castles::empty(),
        }
    }

    /// Set the piece captured from the previous move
    pub fn set_capture(&mut self, piece: PieceType)
        ensures
            *final(self) == (State { captured_piece: Some(piece), ..*old(self) }),
    {
        self.captured_piece = Some(piece);
    }

    /// Clear the captured piece from the previous move
    pub fn clear_capture(&mut self)
        ensures
            *final(self) == (State { captured_piece: None, ..*old(self) }),
    {
        self.captured_piece = None;
    }

    /// Set the en-passant square from the previous move: a square on the third or sixth rank
    pub fn set_en_passant(&mut self, square: Square)
        requires
            sq_index(square) / 8 == 2 || sq_index(square) / 8 == 5,
        ensures
            *final(self) == (State { en_passant_square: Some(square), ..*old(self) }),
    {
        self.en_passant_square = Some(square);
    }

    /// Clear the en-passant square from the previous move
    pub fn clear_en_passant(&mut self)
        ensures
            *final(self) == (State { en_passant_square: None, ..*old(self) }),
    {
        self.en_passant_square = None;
    }

    /// Set the castle rights, which control whether each player has the ability to castle in a given direction
    pub fn set_castle_rights(&mut self, rights: CastleRights)
        ensures
            final(self).castles.spec_rights() == rights,
            same_castle_squares(final(self).castles, old(self).castles),
            *final(self) == (State { castles: final(self).castles, ..*old(self) }),
    {
        *self.castles.as_mut() = rights;
    }

    /// Remove a set of castle rights from the current rights
    pub fn remove_castle_rights(&mut self, rights: CastleRights)
        ensures
            rights_bits(final(self).castles.spec_rights()) == rights_bits(old(self).castles.spec_rights()) & !rights_bits(rights),
            same_castle_squares(final(self).castles, old(self).castles),
            *final(self) == (State { castles: final(self).castles, ..*old(self) }),
    {
        let remaining = self.castles.as_ref().filter(rights);
        *self.castles.as_mut() = remaining;
    }

    /// Add one to the half-move clock (saturating), indicating another chess move has been completed
    pub fn increment_halfmove_clock(&mut self)
        ensures
            *final(self) == (State {
                halfmove_clock: if old(self).halfmove_clock == u16::MAX { u16::MAX } else { (old(self).halfmove_clock + 1) as u16 },
                ..*old(self)
            }),
    {
        self.halfmove_clock = self.halfmove_clock.saturating_add(1);
    }

    /// Reset the half-move clock to zero, indicating a pawn push or piece has been captured
    pub fn clear_halfmove_clock(&mut self)
        ensures
            *final(self) == (State { halfmove_clock: 0, ..*old(self) }),
    {
        self.halfmove_clock = 0;
    }

    /// Set the half-move clock to a starting value
    pub fn set_halfmove_clock(&mut self, value: PlyCount)
        ensures
            *final(self) == (State { halfmove_clock: value, ..*old(self) }),
    {
        self.halfmove_clock = value;
    }

    /// Get the captured piece from the previous move
    pub fn captured_piece(&self) -> (res: Option<PieceType>)
        ensures
            res == self.captured_piece,
    {
        self.captured_piece
    }

    /// Get the previous move's en-passant square if set
    pub fn en_passant_square(&self) -> (res: Option<Square>)
        ensures
            res == self.en_passant_square,
    {
        self.en_passant_square
    }

    /// Get the current castles
    pub fn castles(&self) -> (res: Castles)
        ensures
            res == self.castles,
    {
        self.castles
    }

    /// Get a mask of the pieces directly giving checks for the current side to move
    pub fn pieces_giving_check(&self) -> (res: BoardMask)
        ensures
            res == self.checkers,
    {
        self.checkers
    }

    /// Get a mask of the pinning sniper pieces for a given side
    pub fn pinners_for(&self, side: Player) -> (res: BoardMask)
        ensures
            res == self.pinners_for.at(side),
    {
        *self.pinners_for.get_side(side)
    }

    /// Get a mask of the pieces blocking checks for a given side
    pub fn blockers_for(&self, side: Player) -> (res: BoardMask)
        ensures
            res == self.blockers_for.at(side),
    {
        *self.blockers_for.get_side(side)
    }

    /// Get a mask of the squares that can give check for a given piece
    pub fn check_squares_for(&self, piece_type: PieceType) -> (res: BoardMask)
        ensures
            res == self.check_squares.at(piece_type),
    {
        *self.check_squares.get_piece(piece_type)
    }

    /// The half-move counter for keeping track of the 50 move limit
    pub fn halfmove_clock(&self) -> (res: PlyCount)
        ensures
            res == self.halfmove_clock,
    {
        self.halfmove_clock
    }
}

} // verus!
