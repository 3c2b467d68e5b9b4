use vstd::prelude::*;

use crate::square::{sq_index, Square};

verus! {

/// A container data-structure that holds an instance of `T` for each square
#[derive(Copy, Clone, Debug, PartialEq, Eq)]
pub struct BySquare<T> {
    items: [T; 64],
}

impl<T> BySquare<T> {
    /// The value held for each square, in square index order
    pub closed spec fn items(&self) -> Seq<T> {
        self.items@
    }

    /// The value held for a square
    pub open spec fn at(&self, square: Square) -> T {
        self.items()[sq_index(square)]
    }

    /// Create a `BySquare` from the values for every square, in square index order
    pub fn from_array(items: [T; 64]) -> (res: Self)
        ensures
            res.items() == items@,
    {
        Self { items }
    }

    /// Get the inner `T` for a given square
    pub fn get_square(&self, square: Square) -> (res: &T)
        ensures
            *res == self.at(square),
    {
        &self.items[square.index() as usize]
    }

    /// Get a mutable references to the inner `T` for a given square
    pub fn mut_square(&mut self, square: Square) -> (res: &mut T)
        ensures
            *res == old(self).at(square),
            final(self).items() == old(self).items().update(sq_index(square), *final(res)),
    {
        &mut self.items[square.index() as usize]
    }

    /// Replace the inner `T` for a given square
    pub fn set_square(&mut self, square: Square, item: T)
        ensures
            final(self).items() == old(self).items().update(sq_index(square), item),
    {
        self.items[square.index() as usize] = item;
    }

    /// Each square holds a value
    pub proof fn lemma_len(&self)
        ensures
            self.items().len() == 64,
    {
    }

    /// Containers holding the same values are equal
    pub proof fn lemma_ext(a: Self, b: Self)
        requires
            a.items() == b.items(),
        ensures
            a == b,
    {
        assert(a.items =~= b.items);
    }
}

impl<T: Copy> BySquare<T> {
    /// Create a `BySquare` where all squares have the same value
    pub fn new(item: T) -> (res: Self)
        ensures
            res.items().len() == 64,
            forall|i: int| 0 <= i < 64 ==> res.items()[i] == item,
    {
        Self { items: [item; 64] }
    }
}

} // verus!
