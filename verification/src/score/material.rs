//! The material balance of a position: each side's pieces weighed by their values
use vstd::prelude::*;

use crate::piece_type::{ByPieceType, PieceType};
use crate::player::Player;
use crate::score::{PositionEvaluation, SidedPieceCounts};

verus! {

/// The pieces weighed for material, in the order they are summed
pub open spec fn material_piece(k: int) -> PieceType {
    if k == 0 {
        PieceType::Pawn
    } else if k == 1 {
        PieceType::Knight
    } else if k == 2 {
        PieceType::Bishop
    } else if k == 3 {
        PieceType::Rook
    } else {
        PieceType::Queen
    }
}

/// The `k`th weighed term: a non-king piece type for each side in turn, white first, its value times the side's
/// count of it, counted against the side not to move
pub open spec fn material_term(
    counts: SidedPieceCounts,
    side_to_move: Player,
    piece_values: ByPieceType<PositionEvaluation>,
    k: int,
) -> int {
    let piece = material_piece(k / 2);
    let side = if k % 2 == 0 { Player::White } else { Player::Black };
    let weighed = piece_values.at(piece).0 * counts.piece_counts.at(side).at(piece);
    if side == side_to_move {
        weighed
    } else {
        -weighed
    }
}

/// The sum of the first `n` weighed terms
pub open spec fn material_sum(
    counts: SidedPieceCounts,
    side_to_move: Player,
    piece_values: ByPieceType<PositionEvaluation>,
    n: int,
) -> int
    decreases n,
{
    if n <= 0 {
        0
    } else {
        material_sum(counts, side_to_move, piece_values, n - 1) + material_term(counts, side_to_move, piece_values, n - 1)
    }
}

/// Every product, its negation and every running total of the material sum fit an evaluation
pub open spec fn material_fits(
    counts: SidedPieceCounts,
    side_to_move: Player,
    piece_values: ByPieceType<PositionEvaluation>,
) -> bool {
    forall|k: int|
        0 <= k < 10 ==> {
            &&& i32::MIN < #[trigger] material_term(counts, side_to_move, piece_values, k) <= i32::MAX
            &&& i32::MIN <= material_sum(counts, side_to_move, piece_values, k + 1) <= i32::MAX
        }
}

/// The material balance for the side to move: for each non-king piece type and each side, the piece's value
/// times that side's count of it, added for the side to move and subtracted for the other side
pub fn material_evaluation(
    counts: &SidedPieceCounts,
    side_to_move: Player,
    piece_values: &ByPieceType<PositionEvaluation>,
) -> (res: PositionEvaluation)
    requires
        material_fits(*counts, side_to_move, *piece_values),
    ensures
        res.0 == material_sum(*counts, side_to_move, *piece_values, 10),
{
    let pieces = [PieceType::Pawn, PieceType::Knight, PieceType::Bishop, PieceType::Rook, PieceType::Queen];
    let sides = [Player::White, Player::Black];
    let mut total = PositionEvaluation(0);
    let mut k: usize = 0;
    while k < 10
        invariant
            k <= 10,
            material_fits(*counts, side_to_move, *piece_values),
            pieces@ == seq![PieceType::Pawn, PieceType::Knight, PieceType::Bishop, PieceType::Rook, PieceType::Queen],
            sides@ == seq![Player::White, Player::Black],
            total.0 == material_sum(*counts, side_to_move, *piece_values, k as int),
        decreases 10 - k,
    {
        let piece = pieces[k / 2];
        let side = sides[k % 2];
        assert(piece == material_piece(k as int / 2));
        let count = counts.piece_count(crate::sided_piece::SidedPiece::new(piece, side));
        let value = *piece_values.get_piece(piece);
        assert(i32::MIN < material_term(*counts, side_to_move, *piece_values, k as int) <= i32::MAX);
        let weighed = value.mul_count(count);
        let term = if side == side_to_move {
            weighed
        } else {
            PositionEvaluation(-weighed.0)
        };
        assert(i32::MIN <= material_sum(*counts, side_to_move, *piece_values, k + 1) <= i32::MAX);
        total = PositionEvaluation(total.0 + term.0);
        k += 1;
    }
    total
}

} // verus!
