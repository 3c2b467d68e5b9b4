use vstd::prelude::*;

mod by_castle_direction;
mod direction;
mod rights;
pub mod squares;

pub use by_castle_direction::ByCastleDirection;
pub use direction::{direction_index, CastleDirection, NUM_CASTLE_DIRECTIONS};
pub use rights::{
    has_flag, lemma_parse_rights_name, lemma_rights_name_chars, lemma_rights_bits, right_flag, rights_bits, rights_from_bits,
    spec_parse_rights, spec_rights_name, spec_side_rights, CastleRights, IllegalCastleRights,
};

verus! {

/// How many castle moves there are total.
/// 4 for white king side, white queen side, black king side, black queen side.
pub const NUM_CASTLES: usize = 4;

} // verus!

verus! {

use crate::bitboard::{strictly_between, BoardMask};
use crate::player::{ByPlayer, Player};
use crate::square::{index_file, index_rank, sq_index, Square};
use squares::{standard_king_from_squares, standard_king_to_squares, standard_rook_from_squares, standard_rook_to_squares};

/// The state management for a game of chess's castle permissions.
/// Keeps track of the current rights, and the squares the kings and castling rooks start on.
#[derive(Copy, Clone, Debug, PartialEq, Eq)]
pub struct Castles {
    rights: CastleRights,
    king_starting_squares: ByPlayer<Square>,
    rook_starting_squares: ByCastleDirection<ByPlayer<Square>>,
    is_chess_960: bool,
}

/// The square a king castles to in standard chess
pub open spec fn spec_king_to_square(side: Player, direction: CastleDirection) -> Square {
    match (side, direction) {
        (Player::White, CastleDirection::KingSide) => Square::G1,
        (Player::White, CastleDirection::QueenSide) => Square::C1,
        (Player::Black, CastleDirection::KingSide) => Square::G8,
        (Player::Black, CastleDirection::QueenSide) => Square::C8,
    }
}

/// The square a rook castles to in standard chess
pub open spec fn spec_rook_to_square(side: Player, direction: CastleDirection) -> Square {
    match (side, direction) {
        (Player::White, CastleDirection::KingSide) => Square::F1,
        (Player::White, CastleDirection::QueenSide) => Square::D1,
        (Player::Black, CastleDirection::KingSide) => Square::F8,
        (Player::Black, CastleDirection::QueenSide) => Square::D8,
    }
}

/// The rank index (0 for rank 1, 7 for rank 8) of a side's back rank
pub open spec fn back_rank(side: Player) -> int {
    match side {
        Player::White => 0,
        Player::Black => 7,
    }
}

/// Castling moves the king two files from its standard start towards the rook, to file c (queen side) or g (king side),
/// and puts the rook on the square the king passes over, next to it: file d (queen side) or f (king side), all on the
/// side's back rank
pub proof fn lemma_castle_destinations(side: Player, direction: CastleDirection)
    ensures
        index_rank(sq_index(spec_king_to_square(side, direction))) == back_rank(side),
        index_rank(sq_index(spec_rook_to_square(side, direction))) == back_rank(side),
        index_file(sq_index(spec_king_to_square(side, direction))) == if direction == CastleDirection::KingSide { 6int } else { 2int },
        index_file(sq_index(spec_rook_to_square(side, direction))) == if direction == CastleDirection::KingSide { 5int } else { 3int },
        strictly_between(
            sq_index(spec_standard_king_from_square(side)),
            sq_index(spec_king_to_square(side, direction)),
            sq_index(spec_rook_to_square(side, direction)),
        ),
{
    match (side, direction) {
        (Player::White, CastleDirection::KingSide) => {},
        (Player::White, CastleDirection::QueenSide) => {},
        (Player::Black, CastleDirection::KingSide) => {},
        (Player::Black, CastleDirection::QueenSide) => {},
    }
}

/// The square a castling rook starts on in standard chess
pub open spec fn spec_standard_rook_from_square(side: Player, direction: CastleDirection) -> Square {
    match (side, direction) {
        (Player::White, CastleDirection::KingSide) => Square::H1,
        (Player::White, CastleDirection::QueenSide) => Square::A1,
        (Player::Black, CastleDirection::KingSide) => Square::H8,
        (Player::Black, CastleDirection::QueenSide) => Square::A8,
    }
}

/// The square a king starts on in standard chess
pub open spec fn spec_standard_king_from_square(side: Player) -> Square {
    match side {
        Player::White => Square::E1,
        Player::Black => Square::E8,
    }
}

impl Castles {
    /// The current castle rights
    pub closed spec fn spec_rights(&self) -> CastleRights {
        self.rights
    }

    /// The square a player's king must start on to castle
    pub closed spec fn spec_king_from(&self, side: Player) -> Square {
        self.king_starting_squares.at(side)
    }

    /// The square a player's castling rook must start on to castle in a direction
    pub closed spec fn spec_rook_from(&self, side: Player, direction: CastleDirection) -> Square {
        self.rook_starting_squares.at(direction).at(side)
    }

    /// If the position was set up as a chess 960 variant
    pub closed spec fn spec_is_chess_960(&self) -> bool {
        self.is_chess_960
    }

    /// If the king and rook starting squares are those of standard chess
    pub open spec fn has_standard_squares(&self) -> bool {
        &&& forall|side: Player| #[trigger] self.spec_king_from(side) == spec_standard_king_from_square(side)
        &&& forall|side: Player, direction: CastleDirection| #[trigger] self.spec_rook_from(side, direction)
            == spec_standard_rook_from_square(side, direction)
    }

    /// Create the state management for a board's castle permissions, needs a starting set of rights, and each rook and king square.
    /// A position whose squares differ from standard chess is flagged as chess 960.
    pub fn new(
        rights: CastleRights,
        white_king_square: Square,
        black_king_square: Square,
        white_queen_rook_square: Square,
        black_queen_rook_square: Square,
        white_king_rook_square: Square,
        black_king_rook_square: Square,
    ) -> (res: Self)
        ensures
            res.spec_rights() == rights,
            res.spec_king_from(Player::White) == white_king_square,
            res.spec_king_from(Player::Black) == black_king_square,
            res.spec_rook_from(Player::White, CastleDirection::QueenSide) == white_queen_rook_square,
            res.spec_rook_from(Player::Black, CastleDirection::QueenSide) == black_queen_rook_square,
            res.spec_rook_from(Player::White, CastleDirection::KingSide) == white_king_rook_square,
            res.spec_rook_from(Player::Black, CastleDirection::KingSide) == black_king_rook_square,
            res.spec_is_chess_960() == !res.has_standard_squares(),
    {
        let king_starting_squares = ByPlayer::new_with(white_king_square, black_king_square);
        let rook_starting_squares = ByCastleDirection::new_with(
            ByPlayer::new_with(white_king_rook_square, black_king_rook_square),
            ByPlayer::new_with(white_queen_rook_square, black_queen_rook_square),
        );
        let is_chess_960 = white_king_square != Square::E1 || black_king_square != Square::E8
            || white_king_rook_square != Square::H1 || black_king_rook_square != Square::H8
            || white_queen_rook_square != Square::A1 || black_queen_rook_square != Square::A8;
        let res = Self { rights, king_starting_squares, rook_starting_squares, is_chess_960 };
        proof {
            if !is_chess_960 {
                assert forall|side: Player, direction: CastleDirection| #[trigger] res.spec_rook_from(side, direction)
                    == spec_standard_rook_from_square(side, direction) by {
                    match side {
                        Player::White => {},
                        Player::Black => {},
                    }
                }
            } else {
                assert(!res.has_standard_squares()) by {
                    if res.has_standard_squares() {
                        assert(res.spec_king_from(Player::White) == Square::E1);
                        assert(res.spec_king_from(Player::Black) == Square::E8);
                        assert(res.spec_rook_from(Player::White, CastleDirection::KingSide) == Square::H1);
                        assert(res.spec_rook_from(Player::Black, CastleDirection::KingSide) == Square::H8);
                        assert(res.spec_rook_from(Player::White, CastleDirection::QueenSide) == Square::A1);
                        assert(res.spec_rook_from(Player::Black, CastleDirection::QueenSide) == Square::A8);
                    }
                }
            }
        }
        res
    }

    /// Standard chess castle squares without any castle rights
    pub fn empty() -> (res: Self)
        ensures
            res.spec_rights() == CastleRights::NoRights,
            res.has_standard_squares(),
            !res.spec_is_chess_960(),
    {
        Self::new(CastleRights::NoRights, Square::E1, Square::E8, Square::A1, Square::A8, Square::H1, Square::H8)
    }

    /// The current castle rights
    pub fn as_ref(&self) -> (res: &CastleRights)
        ensures
            *res == self.spec_rights(),
    {
        &self.rights
    }

    /// The current castle rights, to be changed in place
    pub fn as_mut(&mut self) -> (res: &mut CastleRights)
        ensures
            *res == old(self).spec_rights(),
            final(self).spec_rights() == *final(res),
            forall|side: Player| #[trigger] final(self).spec_king_from(side) == old(self).spec_king_from(side),
            forall|side: Player, direction: CastleDirection| #[trigger] final(self).spec_rook_from(side, direction)
                == old(self).spec_rook_from(side, direction),
            final(self).spec_is_chess_960() == old(self).spec_is_chess_960(),
    {
        &mut self.rights
    }

    /// Get the starting square one of the two castle rooks must be on in order to castle for a given side.
    /// Does not take into account rights, simply returns the expected square.
    pub fn rook_from_square(&self, side: Player, direction: CastleDirection) -> (res: Square)
        ensures
            res == self.spec_rook_from(side, direction),
    {
        *self.rook_starting_squares.get_direction(direction).get_side(side)
    }

    /// Get the starting square the king must be on to castle for a given side.
    /// Does not take into account rights, simply returns the expected square.
    pub fn king_from_square(&self, side: Player) -> (res: Square)
        ensures
            res == self.spec_king_from(side),
    {
        *self.king_starting_squares.get_side(side)
    }

    /// Compare the starting squares for the kings and rooks for both sides
    pub fn eq_starting_squares(&self, other: Self) -> (res: bool)
        ensures
            res == ((forall|side: Player| #[trigger] self.spec_king_from(side) == other.spec_king_from(side))
                && (forall|side: Player, direction: CastleDirection| #[trigger] self.spec_rook_from(side, direction)
                    == other.spec_rook_from(side, direction))),
    {
        let res = self.king_from_square(Player::White) == other.king_from_square(Player::White)
            && self.king_from_square(Player::Black) == other.king_from_square(Player::Black)
            && self.rook_from_square(Player::White, CastleDirection::KingSide) == other.rook_from_square(Player::White, CastleDirection::KingSide)
            && self.rook_from_square(Player::Black, CastleDirection::KingSide) == other.rook_from_square(Player::Black, CastleDirection::KingSide)
            && self.rook_from_square(Player::White, CastleDirection::QueenSide) == other.rook_from_square(Player::White, CastleDirection::QueenSide)
            && self.rook_from_square(Player::Black, CastleDirection::QueenSide) == other.rook_from_square(Player::Black, CastleDirection::QueenSide);
        proof {
            if res {
                assert forall|side: Player, direction: CastleDirection| #[trigger] self.spec_rook_from(side, direction)
                    == other.spec_rook_from(side, direction) by {
                    match side {
                        Player::White => {},
                        Player::Black => {},
                    }
                }
                assert forall|side: Player| #[trigger] self.spec_king_from(side) == other.spec_king_from(side) by {
                    match side {
                        Player::White => {},
                        Player::Black => {},
                    }
                }
            }
        }
        res
    }

    /// The square the king will end on after castling for a given player in a given direction
    pub fn king_to_square(&self, side: Player, direction: CastleDirection) -> (res: Square)
        ensures
            res == spec_king_to_square(side, direction),
    {
        *standard_king_to_squares().get_direction(direction).get_side(side)
    }

    /// The square the rook will end on after castling for a given player in a given direction
    pub fn rook_to_square(&self, side: Player, direction: CastleDirection) -> (res: Square)
        ensures
            res == spec_rook_to_square(side, direction),
    {
        *standard_rook_to_squares().get_direction(direction).get_side(side)
    }

    /// The mask that must not contain any pieces in order to castle for a player in a given direction:
    /// the squares strictly between the king and the castling rook
    pub fn get_unoccupied_path(&self, side: Player, direction: CastleDirection) -> (res: BoardMask)
        ensures
            forall|i: int| 0 <= i < 64 ==> res.has(i) == strictly_between(
                sq_index(self.spec_king_from(side)),
                sq_index(self.spec_rook_from(side, direction)),
                i,
            ),
    {
        get_unoccupied_path(self.king_from_square(side), self.rook_from_square(side, direction))
    }

    /// The mask that must not be attacked for the king to pass through in order to castle for a player in a given direction:
    /// the squares between the king's start and destination, and the destination itself
    pub fn get_unattacked_path(&self, side: Player, direction: CastleDirection) -> (res: BoardMask)
        ensures
            forall|i: int| 0 <= i < 64 ==> res.has(i) == (i == sq_index(spec_king_to_square(side, direction))
                || strictly_between(sq_index(self.spec_king_from(side)), sq_index(spec_king_to_square(side, direction)), i)),
    {
        get_unattacked_path(self.king_from_square(side), self.king_to_square(side, direction))
    }

    /// Set the `is_chess_960` flag
    pub fn set_chess_960(&mut self, is_chess_960: bool)
        ensures
            final(self).spec_is_chess_960() == is_chess_960,
            final(self).spec_rights() == old(self).spec_rights(),
            forall|side: Player| #[trigger] final(self).spec_king_from(side) == old(self).spec_king_from(side),
            forall|side: Player, direction: CastleDirection| #[trigger] final(self).spec_rook_from(side, direction)
                == old(self).spec_rook_from(side, direction),
    {
        self.is_chess_960 = is_chess_960;
    }
}

/// The squares strictly between a king and a rook
fn get_unoccupied_path(king_square: Square, rook_square: Square) -> (res: BoardMask)
    ensures
        forall|i: int| 0 <= i < 64 ==> res.has(i) == strictly_between(sq_index(king_square), sq_index(rook_square), i),
{
    let line = BoardMask::line_between(king_square, rook_square);
    let rook = rook_square.to_mask();
    let res = line ^ rook;
    proof {
        crate::square::lemma_square_index_range(rook_square);
        assert forall|i: int| 0 <= i < 64 implies res.has(i) == strictly_between(sq_index(king_square), sq_index(rook_square), i) by {
            crate::bitboard::lemma_bit_ops(line.0, rook.0, i);
            crate::bitboard::lemma_single_bit(sq_index(rook_square), i);
            assert(res.0 == line.0 ^ rook.0);
            assert(rook.has(i) == (i == sq_index(rook_square)));
            assert(line.has(i) == (i == sq_index(rook_square) || strictly_between(sq_index(king_square), sq_index(rook_square), i)));
            if i == sq_index(rook_square) {
                assert(crate::bitboard::king_distance(sq_index(king_square), i) == crate::bitboard::king_distance(sq_index(king_square), sq_index(rook_square)));
            }
        }
    }
    res
}

/// The squares between a king and its castle destination, and the destination
fn get_unattacked_path(king_square: Square, king_to_square: Square) -> (res: BoardMask)
    ensures
        forall|i: int| 0 <= i < 64 ==> res.has(i) == (i == sq_index(king_to_square) || strictly_between(sq_index(king_square), sq_index(king_to_square), i)),
{
    BoardMask::line_between(king_square, king_to_square)
}

impl Default for Castles {
    fn default() -> (res: Self)
        ensures
            res.spec_rights() == CastleRights::NoRights,
            res.has_standard_squares(),
            !res.spec_is_chess_960(),
    {
        Self::empty()
    }
}

} // verus!
