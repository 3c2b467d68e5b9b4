use vstd::prelude::*;

verus! {

/// How many directions the king can castle in
pub const NUM_CASTLE_DIRECTIONS: usize = 2;

/// The direction to castle in for either side
#[derive(Copy, Clone, Debug, PartialEq, Eq, Structural, Hash)]
pub enum CastleDirection {
    /// Castle with the rook on the same side as the king
    KingSide,
    /// Castle with the rook on the same side as the queen
    QueenSide,
}

/// The index of a castle direction (0 for king side, 1 for queen side)
pub open spec fn direction_index(direction: CastleDirection) -> int {
    direction as u8 as int
}

impl CastleDirection {
    /// The index of the direction (0 for king side, 1 for queen side)
    pub fn index(self) -> (res: usize)
        ensures
            res == direction_index(self),
            res < 2,
    {
        self as usize
    }
}

} // verus!
