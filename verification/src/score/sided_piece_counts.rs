use vstd::prelude::*;

use crate::piece_type::{ByPieceType, PieceType};
use crate::player::{ByPlayer, Player};
use crate::score::PieceCount;
use crate::sided_piece::SidedPiece;

verus! {

/// A container for keeping track of piece counts for each [`PieceType`] for each [`Player`]
#[derive(Copy, Clone, Debug, PartialEq, Eq)]
pub struct SidedPieceCounts {
    /// The [`PieceCount`] for a given position by [`ByPlayer`] and [`ByPieceType`]
    pub piece_counts: ByPlayer<ByPieceType<PieceCount>>,
}

impl SidedPieceCounts {
    /// The count of a piece
    pub open spec fn count(&self, piece: SidedPiece) -> PieceCount {
        self.piece_counts.at(piece.player).at(piece.piece_type)
    }

    /// Counts that agree on every piece are equal
    pub proof fn lemma_ext(a: Self, b: Self)
        requires
            forall|piece: SidedPiece| #[trigger] a.count(piece) == b.count(piece),
        ensures
            a == b,
    {
        assert forall|player: Player| #[trigger] a.piece_counts.at(player) == b.piece_counts.at(player) by {
            assert forall|piece_type: PieceType| #[trigger] a.piece_counts.at(player).at(piece_type)
                == b.piece_counts.at(player).at(piece_type) by {
                assert(a.count(SidedPiece { piece_type, player }) == b.count(SidedPiece { piece_type, player }));
            }
            ByPieceType::lemma_ext(a.piece_counts.at(player), b.piece_counts.at(player));
        }
        ByPlayer::lemma_ext(a.piece_counts, b.piece_counts);
    }

    /// Create an empty (no piece counts for either side) [`SidedPieceCounts`]
    pub fn empty() -> (res: Self)
        ensures
            forall|piece: SidedPiece| #[trigger] res.count(piece) == 0,
    {
        let res = Self { piece_counts: ByPlayer::new(ByPieceType::new(0)) };
        proof {
            assert forall|piece: SidedPiece| #[trigger] res.count(piece) == 0 by {
                match piece.player {
                    Player::White => {},
                    Player::Black => {},
                }
            }
        }
        res
    }

    /// Add a given [`PieceType`] for a [`Player`] (saturating at the largest count)
    pub fn add_piece(&mut self, piece: SidedPiece)
        ensures
            final(self).count(piece) == (if old(self).count(piece) == 255 { 255 } else { old(self).count(piece) + 1 }),
            forall|other: SidedPiece| other != piece ==> #[trigger] final(self).count(other) == old(self).count(other),
    {
        let SidedPiece { piece_type, player } = piece;
        let ghost prev = *self;
        let side_counts = self.piece_counts.mut_side(player);
        let piece_count = side_counts.mut_piece(piece_type);
        *piece_count = piece_count.saturating_add(1);
        proof {
            prev.piece_counts.lemma_len();
            prev.piece_counts.at(player).lemma_len();
            assert forall|other: SidedPiece| other != piece implies #[trigger] self.count(other) == prev.count(other) by {
                if other.player != player {
                    assert(crate::player::player_index(other.player) != crate::player::player_index(player));
                } else {
                    assert(crate::piece_type::piece_index(other.piece_type) != crate::piece_type::piece_index(piece_type));
                }
            }
        }
    }

    /// Remove a given [`PieceType`] for a [`Player`] (saturating at zero)
    pub fn remove_piece(&mut self, piece: SidedPiece)
        ensures
            final(self).count(piece) == (if old(self).count(piece) == 0 { 0 } else { old(self).count(piece) - 1 }),
            forall|other: SidedPiece| other != piece ==> #[trigger] final(self).count(other) == old(self).count(other),
    {
        let SidedPiece { piece_type, player } = piece;
        let ghost prev = *self;
        let side_counts = self.piece_counts.mut_side(player);
        let piece_count = side_counts.mut_piece(piece_type);
        *piece_count = piece_count.saturating_sub(1);
        proof {
            prev.piece_counts.lemma_len();
            prev.piece_counts.at(player).lemma_len();
            assert forall|other: SidedPiece| other != piece implies #[trigger] self.count(other) == prev.count(other) by {
                if other.player != player {
                    assert(crate::player::player_index(other.player) != crate::player::player_index(player));
                } else {
                    assert(crate::piece_type::piece_index(other.piece_type) != crate::piece_type::piece_index(piece_type));
                }
            }
        }
    }

    /// The the number of [pieces](PieceType) on the board for a [`Player`]
    pub fn piece_count(&self, piece: SidedPiece) -> (res: PieceCount)
        ensures
            res == self.count(piece),
    {
        let SidedPiece { piece_type, player } = piece;
        *self.piece_counts.get_side(player).get_piece(piece_type)
    }
}

/// Removing a piece undoes adding it, and adding a piece undoes removing one that was counted
pub proof fn lemma_add_remove_symmetric(counts: SidedPieceCounts, piece: SidedPiece)
    ensures
        counts.count(piece) < 255 ==> {
            let added = if counts.count(piece) == 255 { 255 } else { counts.count(piece) + 1 };
            (if added == 0 { 0 } else { added - 1 }) == counts.count(piece)
        },
{
}

} // verus!
