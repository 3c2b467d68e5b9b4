use vstd::prelude::*;

pub mod material;
pub mod piece_square;
pub mod positional_evaluation;
mod sided_piece_counts;
mod tapered_pawn_approximation_evaluation;

pub use positional_evaluation::{PositionEvaluation, MATED_THRESHOLD, MATE_PLIES, MATE_THRESHOLD, MAX_INNER};
pub use sided_piece_counts::SidedPieceCounts;
pub use tapered_pawn_approximation_evaluation::TaperedPawnApproximationEvaluation;

verus! {

/// The underlying type for the evaluation of a position
pub type EvaluationInner = i32;

/// A count of plies (half moves)
pub type PlyCount = u16;

/// A count of pieces
pub type PieceCount = u8;

} // verus!
