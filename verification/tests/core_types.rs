use std::ops::Not;

use thermite::bitboard::BoardMask;
use thermite::board::State;
use thermite::castles::squares::{standard_king_from_squares, standard_rook_from_squares, standard_rook_to_squares};
use thermite::castles::{CastleDirection, CastleRights, Castles, NUM_CASTLES};
use thermite::piece_type::{PieceType, NUM_PIECE_TYPES};
use thermite::player::Player;
use thermite::score::PositionEvaluation;
use thermite::square::{Square, NUM_FILES, NUM_SQUARES};

#[test]
fn is_empty_works() {
    assert!(BoardMask::empty().is_empty());
    assert!(!BoardMask::empty().not().is_empty());
    assert!(!BoardMask::new(0x12300).is_empty());
    assert!(!BoardMask::new(0x8400400004000).is_empty());
    assert!(!BoardMask::new(0x22000812).is_empty());
}

#[test]
fn num_squares_works() {
    assert_eq!(BoardMask::empty().num_squares(), 0);
    assert_eq!(BoardMask::empty().not().num_squares(), 64);
    assert_eq!(BoardMask::new(0x12300).num_squares(), 4);
    assert_eq!(BoardMask::new(0x8400400004000).num_squares(), 4);
    assert_eq!(BoardMask::new(0x22000812).num_squares(), 5);
}

#[test]
fn state_size_remains_consistent() {
    assert_eq!(std::mem::size_of::<State>(), 104);
}

#[test]
fn mod_castles_size_remains_consistent() {
    assert_eq!(std::mem::size_of::<Castles>(), 8);
}

#[test]
fn default_rights_are_empty() {
    assert_eq!(*Castles::default().as_ref(), CastleRights::NoRights);
}

#[test]
fn option_castle_is_one_byte() {
    assert_eq!(std::mem::size_of::<Option<CastleRights>>(), 1);
    assert_eq!(std::mem::size_of_val(&Some(CastleRights::BlackKing)), 1);
    assert_eq!(std::mem::size_of_val::<Option<CastleRights>>(&None), 1);
}

#[test]
fn castles_ordering_is_consistent() {
    assert_eq!(CastleRights::CASTLES[0], CastleRights::WhiteKing);
    assert_eq!(CastleRights::CASTLES[1], CastleRights::WhiteQueen);
    assert_eq!(CastleRights::CASTLES[2], CastleRights::BlackKing);
    assert_eq!(CastleRights::CASTLES[3], CastleRights::BlackQueen);
    assert!(CastleRights::CASTLES.is_sorted());
}

#[test]
fn castles_bitor_works() {
    assert_eq!(CastleRights::WhiteQueen | CastleRights::WhiteKing, CastleRights::WhiteBoth);
    assert_eq!(CastleRights::WhiteBoth | CastleRights::BlackBoth, CastleRights::All);
    assert_eq!(CastleRights::NoRights | CastleRights::BlackBoth, CastleRights::BlackBoth);
    assert_eq!(CastleRights::NoRights | CastleRights::All, CastleRights::All);
    assert_eq!(CastleRights::NoRights | CastleRights::NoRights, CastleRights::NoRights);
}

#[test]
fn num_set_bits_matches_num_castles() {
    assert_eq!((CastleRights::All as u8).count_ones(), NUM_CASTLES.try_into().unwrap());
    assert_eq!((CastleRights::NoRights as u8).count_ones(), 0);
}

#[test]
fn default_castle_squares_are_correct() {
    let king_from = standard_king_from_squares();
    let rook_from = standard_rook_from_squares();
    let rook_to = standard_rook_to_squares();
    assert_eq!(king_from.get_side(Player::White), &Square::E1);
    assert_eq!(king_from.get_side(Player::Black), &Square::E8);
    assert_eq!(rook_from.get_direction(CastleDirection::KingSide).get_side(Player::White), &Square::H1);
    assert_eq!(rook_from.get_direction(CastleDirection::KingSide).get_side(Player::Black), &Square::H8);
    assert_eq!(rook_from.get_direction(CastleDirection::QueenSide).get_side(Player::White), &Square::A1);
    assert_eq!(rook_from.get_direction(CastleDirection::QueenSide).get_side(Player::Black), &Square::A8);
    assert_eq!(rook_to.get_direction(CastleDirection::KingSide).get_side(Player::White), &Square::F1);
    assert_eq!(rook_to.get_direction(CastleDirection::KingSide).get_side(Player::Black), &Square::F8);
    assert_eq!(rook_to.get_direction(CastleDirection::QueenSide).get_side(Player::White), &Square::D1);
    assert_eq!(rook_to.get_direction(CastleDirection::QueenSide).get_side(Player::Black), &Square::D8);
}

#[test]
fn option_piece_type_is_one_byte() {
    assert_eq!(std::mem::size_of::<Option<PieceType>>(), 1);
    assert_eq!(std::mem::size_of_val(&Some(PieceType::King)), 1);
    assert_eq!(std::mem::size_of_val::<Option<PieceType>>(&None), 1);
}

#[test]
fn pieces_ordering_is_consistent() {
    assert_eq!(PieceType::PIECES[0], PieceType::Pawn);
    assert_eq!(PieceType::PIECES[1], PieceType::Knight);
    assert_eq!(PieceType::PIECES[2], PieceType::Bishop);
    assert_eq!(PieceType::PIECES[3], PieceType::Rook);
    assert_eq!(PieceType::PIECES[4], PieceType::Queen);
    assert_eq!(PieceType::PIECES[5], PieceType::King);
    assert_eq!(PieceType::PIECES[NUM_PIECE_TYPES - 1], PieceType::King);
    assert!(PieceType::PIECES.is_sorted());
}

#[test]
fn size_of_positional_evaluation_is_4_bytes() {
    assert_eq!(std::mem::size_of::<PositionEvaluation>(), 4);
}

#[test]
fn squares_ordering_is_consistent() {
    assert_eq!(Square::SQUARES[0], Square::A1);
    assert_eq!(Square::SQUARES[NUM_SQUARES - 1], Square::H8);
    assert_eq!(Square::SQUARES[4 * NUM_FILES + 3], Square::D5);
    assert!(Square::SQUARES.is_sorted());
}
