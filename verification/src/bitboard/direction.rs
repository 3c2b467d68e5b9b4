use vstd::prelude::*;

use core::convert::{From, TryFrom};
use vstd::std_specs::convert::{FromSpecImpl, TryFromSpecImpl};

verus! {

/// A single step direction on the board
#[derive(Copy, Clone, Debug, PartialEq, Eq, Structural)]
pub enum Direction {
    /// Towards rank 8 (square index + 8)
    North,
    /// Towards rank 1 (square index - 8)
    South,
    /// Towards the H file (square index + 1)
    East,
    /// Towards the A file (square index - 1)
    West,
    /// Towards rank 8 and the H file (square index + 9)
    NorthEast,
    /// Towards rank 8 and the A file (square index + 7)
    NorthWest,
    /// Towards rank 1 and the H file (square index - 7)
    SouthEast,
    /// Towards rank 1 and the A file (square index - 9)
    SouthWest,
}

/// The four straight (rook) directions
#[derive(Copy, Clone, Debug, PartialEq, Eq, Structural)]
pub enum CardinalDirection {
    /// Towards rank 8
    North,
    /// Towards rank 1
    South,
    /// Towards the H file
    East,
    /// Towards the A file
    West,
}

/// The four diagonal (bishop) directions
#[derive(Copy, Clone, Debug, PartialEq, Eq, Structural)]
pub enum OrdinalDirection {
    /// Towards rank 8 and the H file
    NorthEast,
    /// Towards rank 8 and the A file
    NorthWest,
    /// Towards rank 1 and the H file
    SouthEast,
    /// Towards rank 1 and the A file
    SouthWest,
}

impl Direction {
    /// How many files a single step in this direction moves (positive towards the H file)
    pub open spec fn file_delta(self) -> int {
        match self {
            Direction::North | Direction::South => 0,
            Direction::East | Direction::NorthEast | Direction::SouthEast => 1,
            Direction::West | Direction::NorthWest | Direction::SouthWest => -1,
        }
    }

    /// How many ranks a single step in this direction moves (positive towards rank 8)
    pub open spec fn rank_delta(self) -> int {
        match self {
            Direction::East | Direction::West => 0,
            Direction::North | Direction::NorthEast | Direction::NorthWest => 1,
            Direction::South | Direction::SouthEast | Direction::SouthWest => -1,
        }
    }

    /// If the direction is one of the four straight directions
    pub open spec fn is_cardinal(self) -> bool {
        self.file_delta() == 0 || self.rank_delta() == 0
    }

    /// The direction pointing the other way
    pub open spec fn spec_opposite(self) -> Direction {
        match self {
            Direction::North => Direction::South,
            Direction::South => Direction::North,
            Direction::East => Direction::West,
            Direction::West => Direction::East,
            Direction::NorthEast => Direction::SouthWest,
            Direction::NorthWest => Direction::SouthEast,
            Direction::SouthEast => Direction::NorthWest,
            Direction::SouthWest => Direction::NorthEast,
        }
    }

    /// The direction pointing the other way
    pub fn opposite(self) -> (res: Direction)
        ensures
            res == self.spec_opposite(),
            res.file_delta() == -self.file_delta(),
            res.rank_delta() == -self.rank_delta(),
    {
        match self {
            Direction::North => Direction::South,
            Direction::South => Direction::North,
            Direction::East => Direction::West,
            Direction::West => Direction::East,
            Direction::NorthEast => Direction::SouthWest,
            Direction::NorthWest => Direction::SouthEast,
            Direction::SouthEast => Direction::NorthWest,
            Direction::SouthWest => Direction::NorthEast,
        }
    }
}

impl CardinalDirection {
    /// The general [`Direction`] for a cardinal direction
    pub open spec fn spec_direction(self) -> Direction {
        match self {
            CardinalDirection::North => Direction::North,
            CardinalDirection::South => Direction::South,
            CardinalDirection::East => Direction::East,
            CardinalDirection::West => Direction::West,
        }
    }

    /// The general [`Direction`] for a cardinal direction
    pub fn to_direction(self) -> (res: Direction)
        ensures
            res == self.spec_direction(),
            res.is_cardinal(),
    {
        match self {
            CardinalDirection::North => Direction::North,
            CardinalDirection::South => Direction::South,
            CardinalDirection::East => Direction::East,
            CardinalDirection::West => Direction::West,
        }
    }

    /// Get the cardinal direction for a general [`Direction`], if it is straight
    pub fn try_from_direction(value: Direction) -> (res: Option<CardinalDirection>)
        ensures
            res is Some <==> value.is_cardinal(),
            res matches Some(c) ==> c.spec_direction() == value,
    {
        match value {
            Direction::North => Some(CardinalDirection::North),
            Direction::South => Some(CardinalDirection::South),
            Direction::East => Some(CardinalDirection::East),
            Direction::West => Some(CardinalDirection::West),
            Direction::NorthEast | Direction::NorthWest | Direction::SouthEast
            | Direction::SouthWest => None,
        }
    }
}

impl OrdinalDirection {
    /// The general [`Direction`] for an ordinal direction
    pub open spec fn spec_direction(self) -> Direction {
        match self {
            OrdinalDirection::NorthEast => Direction::NorthEast,
            OrdinalDirection::NorthWest => Direction::NorthWest,
            OrdinalDirection::SouthEast => Direction::SouthEast,
            OrdinalDirection::SouthWest => Direction::SouthWest,
        }
    }

    /// The general [`Direction`] for an ordinal direction
    pub fn to_direction(self) -> (res: Direction)
        ensures
            res == self.spec_direction(),
            !res.is_cardinal(),
    {
        match self {
            OrdinalDirection::NorthEast => Direction::NorthEast,
            OrdinalDirection::NorthWest => Direction::NorthWest,
            OrdinalDirection::SouthEast => Direction::SouthEast,
            OrdinalDirection::SouthWest => Direction::SouthWest,
        }
    }

    /// Get the ordinal direction for a general [`Direction`], if it is diagonal
    pub fn try_from_direction(value: Direction) -> (res: Option<OrdinalDirection>)
        ensures
            res is Some <==> !value.is_cardinal(),
            res matches Some(o) ==> o.spec_direction() == value,
    {
        match value {
            Direction::NorthEast => Some(OrdinalDirection::NorthEast),
            Direction::NorthWest => Some(OrdinalDirection::NorthWest),
            Direction::SouthEast => Some(OrdinalDirection::SouthEast),
            Direction::SouthWest => Some(OrdinalDirection::SouthWest),
            Direction::North | Direction::South | Direction::East | Direction::West => None,
        }
    }
}

impl From<OrdinalDirection> for Direction {
    fn from(value: OrdinalDirection) -> (res: Direction) {
        value.to_direction()
    }
}

impl FromSpecImpl<OrdinalDirection> for Direction {
    open spec fn obeys_from_spec() -> bool {
        true
    }

    open spec fn from_spec(value: OrdinalDirection) -> Direction {
        value.spec_direction()
    }
}

impl From<CardinalDirection> for Direction {
    fn from(value: CardinalDirection) -> (res: Direction) {
        value.to_direction()
    }
}

impl FromSpecImpl<CardinalDirection> for Direction {
    open spec fn obeys_from_spec() -> bool {
        true
    }

    open spec fn from_spec(value: CardinalDirection) -> Direction {
        value.spec_direction()
    }
}

impl TryFrom<Direction> for CardinalDirection {
    type Error = ();

    fn try_from(value: Direction) -> (res: Result<CardinalDirection, ()>) {
        match CardinalDirection::try_from_direction(value) {
            Some(direction) => Ok(direction),
            None => Err(()),
        }
    }
}

impl TryFromSpecImpl<Direction> for CardinalDirection {
    open spec fn obeys_try_from_spec() -> bool {
        true
    }

    open spec fn try_from_spec(value: Direction) -> Result<CardinalDirection, ()> {
        match value {
            Direction::North => Ok(CardinalDirection::North),
            Direction::South => Ok(CardinalDirection::South),
            Direction::East => Ok(CardinalDirection::East),
            Direction::West => Ok(CardinalDirection::West),
            _ => Err(()),
        }
    }
}

impl TryFrom<Direction> for OrdinalDirection {
    type Error = ();

    fn try_from(value: Direction) -> (res: Result<OrdinalDirection, ()>) {
        match OrdinalDirection::try_from_direction(value) {
            Some(direction) => Ok(direction),
            None => Err(()),
        }
    }
}

impl TryFromSpecImpl<Direction> for OrdinalDirection {
    open spec fn obeys_try_from_spec() -> bool {
        true
    }

    open spec fn try_from_spec(value: Direction) -> Result<OrdinalDirection, ()> {
        match value {
            Direction::NorthEast => Ok(OrdinalDirection::NorthEast),
            Direction::NorthWest => Ok(OrdinalDirection::NorthWest),
            Direction::SouthEast => Ok(OrdinalDirection::SouthEast),
            Direction::SouthWest => Ok(OrdinalDirection::SouthWest),
            _ => Err(()),
        }
    }
}

} // verus!
