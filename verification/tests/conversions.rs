use std::convert::TryFrom;

use thermite::bitboard::{CardinalDirection, Direction, OrdinalDirection};
use thermite::bitboard::BoardMask;
use thermite::board::zobrist::ZobristHasher;
use thermite::castles::CastleRights;
use thermite::piece_type::PieceType;
use thermite::player::Player;
use thermite::promotion_piece_type::PromotionPieceType;
use thermite::score::piece_square::piece_square_bonus_lookup;
use thermite::score::TaperedPawnApproximationEvaluation;
use thermite::sided_piece::{IllegalSidedPiece, SidedPiece};
use thermite::square::Square;
use thermite::zobrist::{HistoryHash, ZobristHash};

#[test]
fn into_iter_works() {
    let cases: [(u64, &[Square]); 4] = [
        (0x0, &[]),
        (0x400400000, &[Square::G3, Square::C5]),
        (0x22000812, &[Square::B1, Square::E1, Square::D2, Square::B4, Square::F4]),
        (0x8400400004000, &[Square::G2, Square::C5, Square::G6, Square::D7]),
    ];
    for (mask, expected) in cases {
        assert_eq!(BoardMask::new(mask).squares_vec(), expected);
    }
}

#[test]
fn file_and_rank_work() {
    let cases = [
        (Square::A1, 0, 0),
        (Square::A4, 0, 3),
        (Square::B8, 1, 7),
        (Square::C5, 2, 4),
        (Square::D3, 3, 2),
        (Square::E2, 4, 1),
        (Square::F7, 5, 6),
        (Square::G6, 6, 5),
        (Square::H3, 7, 2),
        (Square::H8, 7, 7),
    ];
    for (square, file, rank) in cases {
        assert_eq!(square.file(), file);
        assert_eq!(square.rank(), rank);
    }
}

#[test]
fn promotion_piece_type_from_piece_type_works() {
    let cases = [
        (PieceType::Queen, Some(PromotionPieceType::Queen)),
        (PieceType::Rook, Some(PromotionPieceType::Rook)),
        (PieceType::Bishop, Some(PromotionPieceType::Bishop)),
        (PieceType::Knight, Some(PromotionPieceType::Knight)),
        (PieceType::King, None),
        (PieceType::Pawn, None),
    ];
    for (input, expected) in cases {
        assert_eq!(PromotionPieceType::try_from(input).ok(), expected);
        if let Some(promotion) = expected {
            assert_eq!(PieceType::from(promotion), input);
        }
    }
}

#[test]
fn directions_convert() {
    assert_eq!(Direction::from(CardinalDirection::West), Direction::West);
    assert_eq!(Direction::from(OrdinalDirection::SouthEast), Direction::SouthEast);
    assert_eq!(CardinalDirection::try_from(Direction::North), Ok(CardinalDirection::North));
    assert_eq!(CardinalDirection::try_from(Direction::NorthEast), Err(()));
    assert_eq!(OrdinalDirection::try_from(Direction::SouthWest), Ok(OrdinalDirection::SouthWest));
    assert_eq!(OrdinalDirection::try_from(Direction::East), Err(()));
}

#[test]
fn pieces_and_rights_convert() {
    assert_eq!(SidedPiece::try_from('q'), Ok(SidedPiece::new(PieceType::Queen, Player::Black)));
    assert_eq!(SidedPiece::try_from('N'), Ok(SidedPiece::new(PieceType::Knight, Player::White)));
    assert_eq!(SidedPiece::try_from('x'), Err(IllegalSidedPiece('x')));
    assert_eq!(CastleRights::try_from(0u8), Ok(CastleRights::NoRights));
    assert_eq!(CastleRights::try_from(1u8), Ok(CastleRights::WhiteKing));
    assert!(CastleRights::try_from(16u8).is_err());
    assert_eq!(HistoryHash::from(ZobristHash::new(0x1234)), HistoryHash::new(0x34));
}

#[test]
fn masks_and_hashers_print_in_hex() {
    assert_eq!(BoardMask::new(0x22000812).to_hex_string(false), "22000812");
    assert_eq!(BoardMask::new(0xFF00).to_hex_string(true), "0xFF00");
    assert_eq!(BoardMask::new(0).to_hex_string(true), "0x0");
    assert_eq!(ZobristHasher::empty().to_debug_string(), format!("ZobristHasher(\"{:#X}\")", ZobristHasher::empty().finish()));
}

#[test]
fn piece_square_bonuses_are_empty() {
    let pawn = SidedPiece::new(PieceType::Pawn, Player::Black);
    assert_eq!(piece_square_bonus_lookup(pawn, Square::E4), TaperedPawnApproximationEvaluation::empty());
}
