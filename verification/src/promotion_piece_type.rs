use vstd::prelude::*;

use core::convert::{From, TryFrom};
use vstd::std_specs::convert::{FromSpecImpl, TryFromSpecImpl};

use crate::piece_type::PieceType;

verus! {

/// Types of pieces that can be promoted to by a pawn reaching the opposite player's back rank
#[derive(Copy, Clone, Debug, PartialEq, Eq, Structural)]
pub enum PromotionPieceType {
    /// Promote to a queen
    Queen,
    /// Promote to a rook
    Rook,
    /// Promote to a bishop
    Bishop,
    /// Promote to a knight
    Knight,
}

/// Attempting to create a promotion for invalid piece
#[derive(Copy, Clone, Debug, PartialEq, Eq, Structural)]
pub struct IllegalPromotion(pub PieceType);

/// The piece type a promotion turns the pawn into
pub open spec fn spec_promoted_piece(promotion: PromotionPieceType) -> PieceType {
    match promotion {
        PromotionPieceType::Queen => PieceType::Queen,
        PromotionPieceType::Rook => PieceType::Rook,
        PromotionPieceType::Bishop => PieceType::Bishop,
        PromotionPieceType::Knight => PieceType::Knight,
    }
}

impl PromotionPieceType {
    /// The promotion for a piece type, if a pawn can promote to it
    ///
    /// # Errors
    /// Errors with [`IllegalPromotion`] for pawns and kings
    pub fn try_from_piece(piece_type: PieceType) -> (res: Result<Self, IllegalPromotion>)
        ensures
            res is Ok <==> (piece_type != PieceType::Pawn && piece_type != PieceType::King),
            res matches Ok(p) ==> spec_promoted_piece(p) == piece_type,
            res matches Err(e) ==> e.0 == piece_type,
    {
        match piece_type {
            PieceType::Knight => Ok(Self::Knight),
            PieceType::Bishop => Ok(Self::Bishop),
            PieceType::Rook => Ok(Self::Rook),
            PieceType::Queen => Ok(Self::Queen),
            PieceType::Pawn | PieceType::King => Err(IllegalPromotion(piece_type)),
        }
    }

    /// The piece type the promotion turns the pawn into
    pub fn to_piece_type(self) -> (res: PieceType)
        ensures
            res == spec_promoted_piece(self),
            res != PieceType::Pawn,
            res != PieceType::King,
    {
        match self {
            Self::Queen => PieceType::Queen,
            Self::Rook => PieceType::Rook,
            Self::Bishop => PieceType::Bishop,
            Self::Knight => PieceType::Knight,
        }
    }
}

impl TryFrom<PieceType> for PromotionPieceType {
    type Error = IllegalPromotion;

    fn try_from(piece_type: PieceType) -> (res: Result<PromotionPieceType, IllegalPromotion>) {
        Self::try_from_piece(piece_type)
    }
}

impl TryFromSpecImpl<PieceType> for PromotionPieceType {
    open spec fn obeys_try_from_spec() -> bool {
        true
    }

    open spec fn try_from_spec(piece_type: PieceType) -> Result<PromotionPieceType, IllegalPromotion> {
        match piece_type {
            PieceType::Knight => Ok(PromotionPieceType::Knight),
            PieceType::Bishop => Ok(PromotionPieceType::Bishop),
            PieceType::Rook => Ok(PromotionPieceType::Rook),
            PieceType::Queen => Ok(PromotionPieceType::Queen),
            _ => Err(IllegalPromotion(piece_type)),
        }
    }
}

impl From<PromotionPieceType> for PieceType {
    fn from(promotion: PromotionPieceType) -> (res: PieceType) {
        promotion.to_piece_type()
    }
}

impl FromSpecImpl<PromotionPieceType> for PieceType {
    open spec fn obeys_from_spec() -> bool {
        true
    }

    open spec fn from_spec(promotion: PromotionPieceType) -> PieceType {
        spec_promoted_piece(promotion)
    }
}

} // verus!
