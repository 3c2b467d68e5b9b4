use vstd::prelude::*;

use crate::castles::direction::{direction_index, CastleDirection};

verus! {

/// A container data-structure that holds an instance of `T` for each [castle direction](CastleDirection)
#[derive(Copy, Clone, Debug, PartialEq, Eq)]
pub struct ByCastleDirection<T> {
    items: [T; 2],
}

impl<T> ByCastleDirection<T> {
    /// The value held for each direction (king side first)
    pub closed spec fn items(&self) -> Seq<T> {
        self.items@
    }

    /// The value held for a direction
    pub open spec fn at(&self, direction: CastleDirection) -> T {
        self.items()[direction_index(direction)]
    }

    /// Crate a new `ByCastleDirection` with pre-set values for both directions
    pub fn new_with(king_side: T, queen_side: T) -> (res: Self)
        ensures
            res.at(CastleDirection::KingSide) == king_side,
            res.at(CastleDirection::QueenSide) == queen_side,
            res.items().len() == 2,
    {
        Self { items: [king_side, queen_side] }
    }

    /// Get the inner `T` for a given castle direction
    pub fn get_direction(&self, castle_direction: CastleDirection) -> (res: &T)
        ensures
            *res == self.at(castle_direction),
    {
        &self.items[castle_direction.index()]
    }

    /// Get a mutable references to the inner `T` for a given castle direction
    pub fn mut_castle_direction(&mut self, castle_direction: CastleDirection) -> (res: &mut T)
        ensures
            *res == old(self).at(castle_direction),
            final(self).items() == old(self).items().update(direction_index(castle_direction), *final(res)),
    {
        &mut self.items[castle_direction.index()]
    }

    /// Get the underlying container (king side first)
    pub fn into_inner(self) -> (res: [T; 2])
        ensures
            res@ == self.items(),
    {
        self.items
    }
}

impl<T: Copy> ByCastleDirection<T> {
    /// Create a `ByCastleDirection` where both directions have the same value
    pub fn new(item: T) -> (res: Self)
        ensures
            res.at(CastleDirection::KingSide) == item,
            res.at(CastleDirection::QueenSide) == item,
            res.items().len() == 2,
    {
        Self { items: [item, item] }
    }
}

} // verus!
