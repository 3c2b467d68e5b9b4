use vstd::prelude::*;

use crate::castles::by_castle_direction::ByCastleDirection;
use crate::castles::direction::CastleDirection;
use crate::player::{ByPlayer, Player};
use crate::square::Square;

verus! {

/// The squares the kings start on in standard chess (E1, E8)
pub fn standard_king_from_squares() -> (res: ByPlayer<Square>)
    ensures
        res.at(Player::White) == Square::E1,
        res.at(Player::Black) == Square::E8,
{
    ByPlayer::new_with(Square::E1, Square::E8)
}

/// The squares the kings castle to (G1, G8 king side and C1, C8 queen side)
pub fn standard_king_to_squares() -> (res: ByCastleDirection<ByPlayer<Square>>)
    ensures
        res.at(CastleDirection::KingSide).at(Player::White) == Square::G1,
        res.at(CastleDirection::KingSide).at(Player::Black) == Square::G8,
        res.at(CastleDirection::QueenSide).at(Player::White) == Square::C1,
        res.at(CastleDirection::QueenSide).at(Player::Black) == Square::C8,
{
    ByCastleDirection::new_with(
        ByPlayer::new_with(Square::G1, Square::G8),
        ByPlayer::new_with(Square::C1, Square::C8),
    )
}

/// The squares the castling rooks start on in standard chess (H1, H8 king side and A1, A8 queen side)
pub fn standard_rook_from_squares() -> (res: ByCastleDirection<ByPlayer<Square>>)
    ensures
        res.at(CastleDirection::KingSide).at(Player::White) == Square::H1,
        res.at(CastleDirection::KingSide).at(Player::Black) == Square::H8,
        res.at(CastleDirection::QueenSide).at(Player::White) == Square::A1,
        res.at(CastleDirection::QueenSide).at(Player::Black) == Square::A8,
{
    ByCastleDirection::new_with(
        ByPlayer::new_with(Square::H1, Square::H8),
        ByPlayer::new_with(Square::A1, Square::A8),
    )
}

/// The squares the rooks castle to (F1, F8 king side and D1, D8 queen side)
pub fn standard_rook_to_squares() -> (res: ByCastleDirection<ByPlayer<Square>>)
    ensures
        res.at(CastleDirection::KingSide).at(Player::White) == Square::F1,
        res.at(CastleDirection::KingSide).at(Player::Black) == Square::F8,
        res.at(CastleDirection::QueenSide).at(Player::White) == Square::D1,
        res.at(CastleDirection::QueenSide).at(Player::Black) == Square::D8,
{
    ByCastleDirection::new_with(
        ByPlayer::new_with(Square::F1, Square::F8),
        ByPlayer::new_with(Square::D1, Square::D8),
    )
}

} // verus!
