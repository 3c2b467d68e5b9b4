use vstd::prelude::*;

use crate::score::{EvaluationInner, PieceCount, PlyCount};
use crate::text::{i32_to_string, spec_signed_decimal};
use core::ops::{Add, Mul, Neg, Sub};
use vstd::std_specs::ops::{AddSpecImpl, MulSpecImpl, NegSpecImpl, SubSpecImpl};

verus! {

/// An arbitrary large evaluation, reserved for mating scores
pub const MAX_INNER: EvaluationInner = 1_417_339_207;

/// The most plies a mate can be announced in
pub const MATE_PLIES: PlyCount = 50;

/// Evaluations at or above this are mating
pub const MATE_THRESHOLD: EvaluationInner = 1_417_339_157;

/// Evaluations at or below this are mated
pub const MATED_THRESHOLD: EvaluationInner = -1_417_339_157;

/// The evaluation of a position for the side to move: a mate in some plies, being mated in some plies,
/// or an approximate advantage in centipawns
#[derive(Copy, Clone, Debug, PartialEq, Eq, Structural, PartialOrd, Ord, Hash, Default)]
pub struct PositionEvaluation(pub EvaluationInner);

impl PositionEvaluation {
    /// The highest evaluation: mating right now
    pub fn max() -> (res: Self)
        ensures
            res.0 == MAX_INNER,
    {
        Self::new_mating(0)
    }

    /// The lowest evaluation: mated right now
    pub fn min() -> (res: Self)
        ensures
            res.0 == -MAX_INNER,
    {
        Self::new_mated(0)
    }

    /// An even evaluation
    pub fn draw() -> (res: Self)
        ensures
            res.0 == 0,
    {
        Self::new_centipawns(0)
    }

    /// Giving checkmate in a number of plies
    pub fn new_mating(mate_in: PlyCount) -> (res: Self)
        ensures
            res.0 == MAX_INNER - mate_in,
    {
        Self(MAX_INNER - (mate_in as EvaluationInner))
    }

    /// Getting checkmated in a number of plies
    pub fn new_mated(mated_in: PlyCount) -> (res: Self)
        ensures
            res.0 == -MAX_INNER + mated_in,
    {
        Self(-MAX_INNER + (mated_in as EvaluationInner))
    }

    /// An approximate advantage in centipawns, strictly between the mate thresholds
    pub fn new_centipawns(centipawns: EvaluationInner) -> (res: Self)
        requires
            MATED_THRESHOLD < centipawns < MATE_THRESHOLD,
        ensures
            res.0 == centipawns,
    {
        Self(centipawns)
    }

    /// If the evaluation is a mate for the side to move
    pub fn is_mating(self) -> (res: bool)
        ensures
            res == (self.0 >= MATE_THRESHOLD),
    {
        self.0 >= MATE_THRESHOLD
    }

    /// If the evaluation is being mated for the side to move
    pub fn is_mated(self) -> (res: bool)
        ensures
            res == (self.0 <= MATED_THRESHOLD),
    {
        self.0 <= MATED_THRESHOLD
    }

    /// The evaluation in centipawns
    pub fn centipawns(self) -> (res: EvaluationInner)
        ensures
            res == self.0,
    {
        self.0
    }

    /// In how many plies the side to move gets mated
    pub fn mated_in(self) -> (res: EvaluationInner)
        requires
            self.0 <= MATED_THRESHOLD,
        ensures
            res == self.0 + MAX_INNER,
    {
        self.0 + MAX_INNER
    }

    /// In how many plies the side to move mates
    pub fn mating_in(self) -> (res: EvaluationInner)
        requires
            self.0 >= MATE_THRESHOLD,
        ensures
            res == MAX_INNER - self.0,
    {
        MAX_INNER - self.0
    }

    /// The evaluation as shown to a UCI GUI: `#-N` when mated in N plies, `#N` when mating in N plies, else `Ncp`
    pub fn to_uci_string(self) -> (res: String)
        ensures
            res@ == spec_evaluation_string(self),
    {
        if self.is_mated() {
            proof {
                reveal_strlit("#-");
            }
            let mut text = String::from_str("#-");
            text.append(i32_to_string(self.mated_in()).as_str());
            text
        } else if self.is_mating() {
            proof {
                reveal_strlit("#");
            }
            let mut text = String::from_str("#");
            text.append(i32_to_string(self.mating_in()).as_str());
            text
        } else {
            proof {
                reveal_strlit("cp");
            }
            let mut text = i32_to_string(self.centipawns());
            text.append("cp");
            text
        }
    }
}

/// The text of an evaluation for a UCI GUI
pub open spec fn spec_evaluation_string(eval: PositionEvaluation) -> Seq<char> {
    if eval.0 <= MATED_THRESHOLD {
        seq!['#', '-'] + spec_signed_decimal(eval.0 + MAX_INNER)
    } else if eval.0 >= MATE_THRESHOLD {
        seq!['#'] + spec_signed_decimal(MAX_INNER - eval.0)
    } else {
        spec_signed_decimal(eval.0 as int) + seq!['c', 'p']
    }
}

/// Mating beats every other evaluation, every other evaluation beats being mated,
/// and quicker mates beat slower ones
pub proof fn lemma_evaluation_order(mate_in: PlyCount, mated_in: PlyCount, centipawns: EvaluationInner)
    requires
        mate_in <= MATE_PLIES,
        mated_in <= MATE_PLIES,
        MATED_THRESHOLD < centipawns < MATE_THRESHOLD,
    ensures
        MAX_INNER - mate_in > centipawns > -MAX_INNER + mated_in,
        MAX_INNER - mate_in >= MATE_THRESHOLD,
        -MAX_INNER + mated_in <= MATED_THRESHOLD,
        mate_in < MATE_PLIES ==> MAX_INNER - mate_in > MAX_INNER - (mate_in + 1),
{
}

/// Negating an evaluation turns mating into being mated in the same number of plies
pub proof fn lemma_negate_mate(mate_in: PlyCount)
    requires
        mate_in <= MATE_PLIES,
    ensures
        -(MAX_INNER - mate_in) == -MAX_INNER + mate_in,
{
}

impl Neg for PositionEvaluation {
    type Output = PositionEvaluation;

    fn neg(self) -> (res: PositionEvaluation) {
        PositionEvaluation(-self.0)
    }
}

impl NegSpecImpl for PositionEvaluation {
    open spec fn obeys_neg_spec() -> bool {
        true
    }

    open spec fn neg_req(self) -> bool {
        self.0 != i32::MIN
    }

    open spec fn neg_spec(self) -> PositionEvaluation {
        PositionEvaluation((-self.0) as i32)
    }
}

impl Add for PositionEvaluation {
    type Output = PositionEvaluation;

    fn add(self, rhs: PositionEvaluation) -> (res: PositionEvaluation) {
        PositionEvaluation(self.0 + rhs.0)
    }
}

impl AddSpecImpl for PositionEvaluation {
    open spec fn obeys_add_spec() -> bool {
        true
    }

    open spec fn add_req(self, rhs: PositionEvaluation) -> bool {
        i32::MIN <= self.0 + rhs.0 <= i32::MAX
    }

    open spec fn add_spec(self, rhs: PositionEvaluation) -> PositionEvaluation {
        PositionEvaluation((self.0 + rhs.0) as i32)
    }
}

impl Sub for PositionEvaluation {
    type Output = PositionEvaluation;

    fn sub(self, rhs: PositionEvaluation) -> (res: PositionEvaluation) {
        PositionEvaluation(self.0 - rhs.0)
    }
}

impl SubSpecImpl for PositionEvaluation {
    open spec fn obeys_sub_spec() -> bool {
        true
    }

    open spec fn sub_req(self, rhs: PositionEvaluation) -> bool {
        i32::MIN <= self.0 - rhs.0 <= i32::MAX
    }

    open spec fn sub_spec(self, rhs: PositionEvaluation) -> PositionEvaluation {
        PositionEvaluation((self.0 - rhs.0) as i32)
    }
}

impl Mul for PositionEvaluation {
    type Output = PositionEvaluation;

    fn mul(self, rhs: PositionEvaluation) -> (res: PositionEvaluation) {
        PositionEvaluation(self.0 * rhs.0)
    }
}

impl MulSpecImpl for PositionEvaluation {
    open spec fn obeys_mul_spec() -> bool {
        true
    }

    open spec fn mul_req(self, rhs: PositionEvaluation) -> bool {
        i32::MIN <= self.0 * rhs.0 <= i32::MAX
    }

    open spec fn mul_spec(self, rhs: PositionEvaluation) -> PositionEvaluation {
        PositionEvaluation((self.0 * rhs.0) as i32)
    }
}

impl PositionEvaluation {
    /// Scale the evaluation by a piece count
    pub fn mul_count(self, rhs: PieceCount) -> (res: PositionEvaluation)
        requires
            i32::MIN <= self.0 * rhs <= i32::MAX,
        ensures
            res.0 == self.0 * rhs,
    {
        PositionEvaluation(self.0 * (rhs as EvaluationInner))
    }
}

} // verus!
