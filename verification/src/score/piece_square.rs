//! Bonuses for pieces standing on particular squares, tapered between the middle and the end game
use vstd::prelude::*;

use crate::piece_type::PieceType;
use crate::player::Player;
use crate::score::{PositionEvaluation, TaperedPawnApproximationEvaluation};
use crate::sided_piece::SidedPiece;
use crate::square::{lemma_square_index_range, sq_index, Square};

verus! {

/// The bonus for a piece type on the square with a board index, from white's point of view: no square carries a
/// bonus yet
pub open spec fn spec_piece_square_bonus(piece: PieceType, square_index: int) -> TaperedPawnApproximationEvaluation {
    TaperedPawnApproximationEvaluation { mid_game: PositionEvaluation(0), end_game: PositionEvaluation(0) }
}

/// The board index a player sees a square at: black's board is white's turned around
pub open spec fn spec_player_view(player: Player, square: Square) -> int {
    match player {
        Player::White => sq_index(square),
        Player::Black => 63 - sq_index(square),
    }
}

/// The white point of view bonus for a piece type on a board index
fn piece_square_bonus(piece: PieceType, square_index: u8) -> (res: TaperedPawnApproximationEvaluation)
    requires
        square_index < 64,
    ensures
        res == spec_piece_square_bonus(piece, square_index as int),
{
    TaperedPawnApproximationEvaluation::empty()
}

/// Lookup the piece-square bonus evaluation for a piece placed on a square for a given side: black's bonuses are
/// white's, mirrored across the board
pub fn piece_square_bonus_lookup(piece: SidedPiece, square: Square) -> (res: TaperedPawnApproximationEvaluation)
    ensures
        res == spec_piece_square_bonus(piece.piece_type, spec_player_view(piece.player, square)),
{
    proof {
        lemma_square_index_range(square);
    }
    let index = match piece.player {
        Player::White => square.index(),
        Player::Black => 63 - square.index(),
    };
    piece_square_bonus(piece.piece_type, index)
}

} // verus!
