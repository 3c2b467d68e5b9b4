use vstd::prelude::*;

use crate::player::{player_index, Player};

verus! {

/// A container data-structure that holds an instance of `T` for each player (one for white, one for black)
#[derive(Copy, Clone, Debug, PartialEq, Eq)]
pub struct ByPlayer<T> {
    items: [T; 2],
}

impl<T> ByPlayer<T> {
    /// The value held for each player (white first)
    pub closed spec fn items(&self) -> Seq<T> {
        self.items@
    }

    /// The value held for a player
    pub open spec fn at(&self, player: Player) -> T {
        self.items()[player_index(player)]
    }

    /// Crate a new `ByPlayer` with pre-set values for both white and black
    pub fn new_with(white: T, black: T) -> (res: Self)
        ensures
            res.at(Player::White) == white,
            res.at(Player::Black) == black,
            res.items().len() == 2,
    {
        Self { items: [white, black] }
    }

    /// Get the inner `T` for a given player
    pub fn get_side(&self, side: Player) -> (res: &T)
        ensures
            *res == self.at(side),
    {
        &self.items[side.index()]
    }

    /// Get a mutable references to the inner `T` for a given player
    pub fn mut_side(&mut self, side: Player) -> (res: &mut T)
        ensures
            *res == old(self).at(side),
            final(self).items() == old(self).items().update(player_index(side), *final(res)),
    {
        &mut self.items[side.index()]
    }

    /// Each player holds a value
    pub proof fn lemma_len(&self)
        ensures
            self.items().len() == 2,
    {
    }

    /// Containers holding the same value for both players are equal
    pub proof fn lemma_ext(a: Self, b: Self)
        requires
            a.at(Player::White) == b.at(Player::White),
            a.at(Player::Black) == b.at(Player::Black),
        ensures
            a == b,
    {
        assert(a.items =~= b.items);
    }
}

impl<T: Copy> ByPlayer<T> {
    /// Create a `ByPlayer` where both players have the same value
    pub fn new(item: T) -> (res: Self)
        ensures
            res.at(Player::White) == item,
            res.at(Player::Black) == item,
            res.items().len() == 2,
    {
        Self { items: [item, item] }
    }
}

} // verus!
