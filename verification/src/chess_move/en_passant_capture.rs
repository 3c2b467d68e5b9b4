use vstd::prelude::*;

use crate::chess_move::quiet::Quiet;
use crate::piece_type::PieceType;
use crate::player::Player;
use crate::sided_piece::SidedPiece;
use crate::square::{index_file, index_rank, lemma_square_on, sq_index, square_on, Square};
use core::convert::From;
use vstd::std_specs::convert::FromSpecImpl;

verus! {

/// The side a capturing pawn moves towards: west (towards file A) or east (towards file H)
#[derive(Copy, Clone, Debug, PartialEq, Eq, Structural)]
pub enum PawnCaptureDirection {
    /// Towards file A
    West,
    /// Towards file H
    East,
}

/// How many files a capture in a direction moves the capturing pawn
pub open spec fn spec_file_step(direction: PawnCaptureDirection) -> int {
    match direction {
        PawnCaptureDirection::West => -1,
        PawnCaptureDirection::East => 1,
    }
}

/// The rank (0 for rank 1 .. 7 for rank 8) a player's pawn captures en passant from, which is also the rank
/// the opponent's pawn double jumped to
pub open spec fn spec_capturing_rank(player: Player) -> int {
    match player {
        Player::White => 4,
        Player::Black => 3,
    }
}

/// The rank (0 for rank 1 .. 7 for rank 8) a player's pawn lands on when capturing en passant: the rank the
/// opponent's pawn jumped over
pub open spec fn spec_landing_rank(player: Player) -> int {
    match player {
        Player::White => 5,
        Player::Black => 2,
    }
}

/// A valid capture of a pawn on its skipped square for a pawn that *just* double jumped
#[derive(Copy, Clone, Debug, PartialEq, Eq, Structural)]
pub struct EnPassantCapture {
    /// The starting square the capturing pawn is moving `from`
    from: Square,
    /// The en passant square the capturing pawn moves `to`
    to: Square,
    /// The square of the pawn that double-jumped
    captured_pawn_square: Square,
    /// The player doing the en-passant-capture
    player: Player,
}

/// The capture by `player`'s pawn from `from_file` to `to_file`, taking the pawn on `to_file`
pub open spec fn spec_en_passant(from_file: int, to_file: int, player: Player) -> (Square, Square, Square) {
    (
        square_on(spec_capturing_rank(player), from_file),
        square_on(spec_landing_rank(player), to_file),
        square_on(spec_capturing_rank(player), to_file),
    )
}

/// The rank a player's pawn captures en passant from, as a byte
fn capturing_rank(player: Player) -> (res: u8)
    ensures
        res == spec_capturing_rank(player),
{
    match player {
        Player::White => 4,
        Player::Black => 3,
    }
}

/// The rank a player's capturing pawn lands on, as a byte
fn landing_rank(player: Player) -> (res: u8)
    ensures
        res == spec_landing_rank(player),
{
    match player {
        Player::White => 5,
        Player::Black => 2,
    }
}

impl EnPassantCapture {
    /// The capturing pawn moves one file over and one rank forward onto the square behind the captured pawn
    #[verifier::type_invariant]
    spec fn well_formed(self) -> bool {
        let from_file = index_file(sq_index(self.from));
        let to_file = index_file(sq_index(self.to));
        &&& 0 <= from_file < 8
        &&& 0 <= to_file < 8
        &&& (from_file - to_file == 1 || to_file - from_file == 1)
        &&& (self.from, self.to, self.captured_pawn_square) == spec_en_passant(from_file, to_file, self.player)
    }

    /// The starting square of the capturing pawn
    pub closed spec fn spec_from(&self) -> Square {
        self.from
    }

    /// The square the capturing pawn lands on
    pub closed spec fn spec_to(&self) -> Square {
        self.to
    }

    /// The square of the captured pawn
    pub closed spec fn spec_captured_square(&self) -> Square {
        self.captured_pawn_square
    }

    /// The player capturing
    pub closed spec fn spec_player(&self) -> Player {
        self.player
    }

    /// The capture by `player` from `from_file` to `to_file`
    fn between_files(from_file: u8, to_file: u8, player: Player) -> (res: Self)
        requires
            from_file < 8,
            to_file < 8,
            from_file == to_file + 1 || to_file == from_file + 1,
        ensures
            (res.spec_from(), res.spec_to(), res.spec_captured_square()) == spec_en_passant(
                from_file as int,
                to_file as int,
                player,
            ),
            res.spec_player() == player,
    {
        let capturing = capturing_rank(player);
        let from = Square::on_rank_file(capturing, from_file);
        let to = Square::on_rank_file(landing_rank(player), to_file);
        let captured_pawn_square = Square::on_rank_file(capturing, to_file);
        Self { from, to, captured_pawn_square, player }
    }

    /// Create a new valid [`EnPassantCapture`] given the capturing pawn's starting square, which must be on the
    /// rank the player captures en passant from.
    /// Returns [`None`] if direction would shift off of the board.
    pub fn new_from(from: Square, direction: PawnCaptureDirection, player: Player) -> (res: Option<Self>)
        requires
            index_rank(sq_index(from)) == spec_capturing_rank(player),
        ensures
            ({
                let from_file = index_file(sq_index(from));
                let to_file = from_file + spec_file_step(direction);
                &&& res is Some <==> 0 <= to_file < 8
                &&& res matches Some(capture) ==> {
                    &&& (capture.spec_from(), capture.spec_to(), capture.spec_captured_square())
                        == spec_en_passant(from_file, to_file, player)
                    &&& capture.spec_player() == player
                }
            }),
    {
        let from_file = from.file() as u8;
        let to_file = match direction {
            PawnCaptureDirection::West => {
                if from_file == 0 {
                    return None;
                }
                from_file - 1
            },
            PawnCaptureDirection::East => {
                if from_file == 7 {
                    return None;
                }
                from_file + 1
            },
        };
        let capture = Self::between_files(from_file, to_file, player);
        proof {
            lemma_square_on(spec_capturing_rank(player), from_file as int);
        }
        Some(capture)
    }

    /// Create a new valid [`EnPassantCapture`] given the target en passant square (the capturing pawn's
    /// destination square), which must be on the rank the player's pawn lands on when capturing en passant.
    /// Returns [`None`] if direction would shift off of the board.
    pub fn new_en_passant_square(to: Square, direction: PawnCaptureDirection, player: Player) -> (res: Option<Self>)
        requires
            index_rank(sq_index(to)) == spec_landing_rank(player),
        ensures
            ({
                let to_file = index_file(sq_index(to));
                let from_file = to_file - spec_file_step(direction);
                &&& res is Some <==> 0 <= from_file < 8
                &&& res matches Some(capture) ==> {
                    &&& (capture.spec_from(), capture.spec_to(), capture.spec_captured_square())
                        == spec_en_passant(from_file, to_file, player)
                    &&& capture.spec_player() == player
                }
            }),
    {
        let to_file = to.file() as u8;
        let from_file = match direction {
            PawnCaptureDirection::West => {
                if to_file == 7 {
                    return None;
                }
                to_file + 1
            },
            PawnCaptureDirection::East => {
                if to_file == 0 {
                    return None;
                }
                to_file - 1
            },
        };
        let capture = Self::between_files(from_file, to_file, player);
        proof {
            lemma_square_on(spec_landing_rank(player), to_file as int);
        }
        Some(capture)
    }

    /// Get the starting pawn square
    pub fn from(&self) -> (res: Square)
        ensures
            res == self.spec_from(),
    {
        self.from
    }

    /// Get the ending pawn square
    pub fn to(&self) -> (res: Square)
        ensures
            res == self.spec_to(),
    {
        self.to
    }

    /// Get the player doing the en-passant-capture
    pub fn player(&self) -> (res: Player)
        ensures
            res == self.spec_player(),
    {
        self.player
    }

    /// Get the captured pawn's square
    pub fn captured_square(&self) -> (res: Square)
        ensures
            res == self.spec_captured_square(),
    {
        self.captured_pawn_square
    }
}

impl From<EnPassantCapture> for Quiet {
    fn from(value: EnPassantCapture) -> (res: Quiet) {
        proof {
            use_type_invariant(&value);
            let from_file = index_file(sq_index(value.from));
            let to_file = index_file(sq_index(value.to));
            lemma_square_on(spec_capturing_rank(value.player), from_file);
            lemma_square_on(spec_landing_rank(value.player), to_file);
        }
        Quiet::new(value.from, value.to, SidedPiece::new(PieceType::Pawn, value.player)).unwrap()
    }
}

impl FromSpecImpl<EnPassantCapture> for Quiet {
    open spec fn obeys_from_spec() -> bool {
        true
    }

    open spec fn from_spec(value: EnPassantCapture) -> Quiet {
        Quiet::spec_new(
            value.spec_from(),
            value.spec_to(),
            SidedPiece { piece_type: PieceType::Pawn, player: value.spec_player() },
        )
    }
}

} // verus!
