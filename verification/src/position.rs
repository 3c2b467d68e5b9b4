//! Game-level bookkeeping kept beside a board
use vstd::prelude::*;

/// A record of recent position hashes for repetition checks
pub mod hash_history;

use crate::player::Player;

verus! {

/// Why pieces placed on a board do not make a legal position
#[derive(Copy, Clone, Debug, PartialEq, Eq, Structural)]
pub enum IllegalPosition {
    /// A player has no king on the board
    MissingKing(Player),
}

} // verus!
