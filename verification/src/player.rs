use vstd::prelude::*;

mod by_player;

pub use by_player::ByPlayer;

verus! {

/// The number of players in a game
pub const NUM_PLAYERS: usize = 2;

/// The color of the pieces for the side (or player) moving.
#[derive(Copy, Clone, Debug, PartialEq, Eq, Structural, PartialOrd, Ord, Hash)]
pub enum Player {
    /// The player controlling the white pieces.
    /// Typically the first side to move in a standard game.
    White,
    /// The player controlling the black pieces.
    /// Typically the second side to move in a standard game.
    Black,
}

/// The index of a player (0 for white, 1 for black)
pub open spec fn player_index(player: Player) -> int {
    player as u8 as int
}

impl Player {
    /// Array of all sides
    pub const PLAYERS: [Player; 2] = [Player::White, Player::Black];

    /// The other player
    pub open spec fn other(self) -> Player {
        match self {
            Player::White => Player::Black,
            Player::Black => Player::White,
        }
    }

    /// Switch the side to the next player to move.
    pub fn switch(self) -> (res: Self)
        ensures
            res == self.other(),
            res != self,
    {
        match self {
            Self::White => Self::Black,
            Self::Black => Self::White,
        }
    }

    /// The index of the player (0 for white, 1 for black)
    pub fn index(self) -> (res: usize)
        ensures
            res == player_index(self),
            res < 2,
    {
        self as usize
    }

    /// The FEN character for the player, `'w'` for white and `'b'` for black
    pub fn to_char(self) -> (res: char)
        ensures
            res == spec_player_char(self),
    {
        match self {
            Self::White => 'w',
            Self::Black => 'b',
        }
    }
}

/// The FEN character for a player
pub open spec fn spec_player_char(player: Player) -> char {
    match player {
        Player::White => 'w',
        Player::Black => 'b',
    }
}

/// Switching players twice gives back the same player
pub proof fn lemma_switch_involutive(player: Player)
    ensures
        player.other().other() == player,
        player.other() != player,
{
}

} // verus!
