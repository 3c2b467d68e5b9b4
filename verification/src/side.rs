use vstd::prelude::*;

verus! {

/// The number of sides in a game
pub const NUM_SIDES: usize = 2;

/// The color of the pieces for the side (or player) moving.
#[derive(Copy, Clone, Debug, PartialEq, Eq, Structural, PartialOrd, Ord, Hash)]
pub enum Side {
    /// The side controlling the white pieces.
    White,
    /// The side controlling the black pieces.
    Black,
}

impl Side {
    /// Array of all sides
    pub const SIDES: [Side; 2] = [Side::White, Side::Black];

    /// The other side
    pub open spec fn other(self) -> Side {
        match self {
            Side::White => Side::Black,
            Side::Black => Side::White,
        }
    }

    /// Switch the side to the next player to move.
    pub fn switch(self) -> (res: Self)
        ensures
            res == self.other(),
            res != self,
    {
        match self {
            Self::White => Self::Black,
            Self::Black => Self::White,
        }
    }
}

/// Switching sides twice gives back the same side
pub proof fn lemma_side_switch_involutive(side: Side)
    ensures
        side.other().other() == side,
{
}

} // verus!
