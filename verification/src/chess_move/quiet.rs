use vstd::prelude::*;

use crate::sided_piece::SidedPiece;
use crate::square::Square;

verus! {

/// Plain chess move, take a piece from a square and move it to another square
#[derive(Copy, Clone, Debug, PartialEq, Eq, Structural)]
pub struct Quiet {
    /// The starting [`square`](Square) the piece is moving `from`
    from: Square,
    /// The ending [`square`](Square) the piece moving `to`
    to: Square,
    /// The piece moving
    owned_piece: SidedPiece,
}

impl Quiet {
    /// The move of a piece between two squares
    pub closed spec fn spec_new(from: Square, to: Square, owned_piece: SidedPiece) -> Quiet {
        Quiet { from, to, owned_piece }
    }

    /// The starting square
    pub closed spec fn spec_from(&self) -> Square {
        self.from
    }

    /// The ending square
    pub closed spec fn spec_to(&self) -> Square {
        self.to
    }

    /// The piece moving
    pub closed spec fn spec_piece(&self) -> SidedPiece {
        self.owned_piece
    }

    /// The move with its squares switched
    pub closed spec fn spec_reverse(&self) -> Quiet {
        Quiet { from: self.to, to: self.from, owned_piece: self.owned_piece }
    }

    /// Create a new valid [`Quiet`]
    /// Returns [`None`] if `from` and `to` are the same
    pub fn new(from: Square, to: Square, owned_piece: SidedPiece) -> (res: Option<Self>)
        ensures
            res is None <==> from == to,
            res matches Some(q) ==> q == Quiet::spec_new(from, to, owned_piece),
            res matches Some(q) ==> q.spec_from() == from && q.spec_to() == to && q.spec_piece() == owned_piece,
    {
        // If moving to the same starting square this invalid
        if from == to {
            return None;
        }
        Some(Self { from, to, owned_piece })
    }

    /// Get the piece's starting [square](Square)
    pub fn from(&self) -> (res: Square)
        ensures
            res == self.spec_from(),
    {
        self.from
    }

    /// Get the piece's ending/destination [square](Square)
    pub fn to(&self) -> (res: Square)
        ensures
            res == self.spec_to(),
    {
        self.to
    }

    /// Get the piece being moved
    pub fn piece(&self) -> (res: SidedPiece)
        ensures
            res == self.spec_piece(),
    {
        self.owned_piece
    }

    /// Get a new [`Quiet`] with the `from` and `to` [`Square`]s switched.
    /// Useful for undoing a move.
    pub fn reverse(self) -> (res: Self)
        ensures
            res == self.spec_reverse(),
            res.spec_from() == self.spec_to(),
            res.spec_to() == self.spec_from(),
            res.spec_piece() == self.spec_piece(),
    {
        Self { from: self.to, to: self.from, owned_piece: self.owned_piece }
    }
}

impl Quiet {
    /// Moves with the same starting square, ending square and piece are the same move: every move is the one built
    /// from its squares and piece
    pub proof fn lemma_ext(a: Quiet, b: Quiet)
        ensures
            (a.spec_from() == b.spec_from() && a.spec_to() == b.spec_to() && a.spec_piece() == b.spec_piece()) ==> a == b,
            Quiet::spec_new(a.spec_from(), a.spec_to(), a.spec_piece()) == a,
    {
    }
}

/// Reversing the move of a piece from one square to another gives the move of that piece back
pub proof fn lemma_reverse_new(from: Square, to: Square, piece: SidedPiece)
    ensures
        Quiet::spec_new(from, to, piece).spec_reverse() == Quiet::spec_new(to, from, piece),
        Quiet::spec_new(from, to, piece).spec_from() == from,
        Quiet::spec_new(from, to, piece).spec_to() == to,
        Quiet::spec_new(from, to, piece).spec_piece() == piece,
{
}

/// Reversing a move twice gives the move back
pub proof fn lemma_reverse_involutive(quiet: Quiet)
    ensures
        quiet.spec_reverse().spec_reverse() == quiet,
{
}

} // verus!
