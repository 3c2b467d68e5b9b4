use vstd::prelude::*;

use crate::score::PositionEvaluation;

verus! {

/// A pair of evaluations for the middle game and the end game, to be blended by the game stage
#[derive(Copy, Clone, Debug, PartialEq, Eq, Structural, PartialOrd, Ord, Default)]
pub struct TaperedPawnApproximationEvaluation {
    /// The evaluation while many pieces remain
    pub mid_game: PositionEvaluation,
    /// The evaluation once most pieces have been traded
    pub end_game: PositionEvaluation,
}

impl TaperedPawnApproximationEvaluation {
    /// A neutral evaluation for both stages
    pub fn empty() -> (res: Self)
        ensures
            res.mid_game.0 == 0,
            res.end_game.0 == 0,
    {
        Self { mid_game: PositionEvaluation::new_centipawns(0), end_game: PositionEvaluation::new_centipawns(0) }
    }
}

} // verus!
