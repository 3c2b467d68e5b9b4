use vstd::prelude::*;

use crate::piece_type::{piece_index, PieceType};

verus! {

/// A container data-structure that holds an instance of `T` for each piece type
#[derive(Copy, Clone, Debug, PartialEq, Eq)]
pub struct ByPieceType<T> {
    items: [T; 6],
}

impl<T> ByPieceType<T> {
    /// The value held for each piece type (pawn first, king last)
    pub closed spec fn items(&self) -> Seq<T> {
        self.items@
    }

    /// The value held for a piece type
    pub open spec fn at(&self, piece: PieceType) -> T {
        self.items()[piece_index(piece)]
    }

    /// Crate a new `ByPieceType` with pre-set values for all piece types
    pub fn new_with(pawn: T, knight: T, bishop: T, rook: T, queen: T, king: T) -> (res: Self)
        ensures
            res.at(PieceType::Pawn) == pawn,
            res.at(PieceType::Knight) == knight,
            res.at(PieceType::Bishop) == bishop,
            res.at(PieceType::Rook) == rook,
            res.at(PieceType::Queen) == queen,
            res.at(PieceType::King) == king,
            res.items().len() == 6,
    {
        Self { items: [pawn, knight, bishop, rook, queen, king] }
    }

    /// Get the inner `T` for a given piece type
    pub fn get_piece(&self, piece: PieceType) -> (res: &T)
        ensures
            *res == self.at(piece),
    {
        &self.items[piece.index()]
    }

    /// Get a mutable references to the inner `T` for a given piece type
    pub fn mut_piece(&mut self, piece: PieceType) -> (res: &mut T)
        ensures
            *res == old(self).at(piece),
            final(self).items() == old(self).items().update(piece_index(piece), *final(res)),
    {
        &mut self.items[piece.index()]
    }

    /// Each piece type holds a value
    pub proof fn lemma_len(&self)
        ensures
            self.items().len() == 6,
    {
    }

    /// Containers holding the same value for every piece type are equal
    pub proof fn lemma_ext(a: Self, b: Self)
        requires
            forall|piece: PieceType| #[trigger] a.at(piece) == b.at(piece),
        ensures
            a == b,
    {
        assert(a.at(PieceType::Pawn) == b.at(PieceType::Pawn));
        assert(a.at(PieceType::Knight) == b.at(PieceType::Knight));
        assert(a.at(PieceType::Bishop) == b.at(PieceType::Bishop));
        assert(a.at(PieceType::Rook) == b.at(PieceType::Rook));
        assert(a.at(PieceType::Queen) == b.at(PieceType::Queen));
        assert(a.at(PieceType::King) == b.at(PieceType::King));
        assert(a.items =~= b.items);
    }
}

impl<T: Copy> ByPieceType<T> {
    /// Create a `ByPieceType` where all pieces have the same value
    pub fn new(item: T) -> (res: Self)
        ensures
            forall|p: PieceType| #[trigger] res.at(p) == item,
            res.items().len() == 6,
    {
        let res = Self { items: [item; 6] };
        proof {
            assert forall|p: PieceType| #[trigger] res.at(p) == item by {
                assert(0 <= piece_index(p) < 6);
            }
        }
        res
    }
}

} // verus!
