use std::cmp::Ordering;
use std::ops::Not;

use thermite::bitboard::BoardMask;
use thermite::board::Board;
use thermite::castles::{CastleDirection, CastleRights, Castles};
use thermite::chess_move::ChessMove;
use thermite::move_type::MoveType;
use thermite::piece_type::PieceType;
use thermite::promotion_piece_type::PromotionPieceType;
use thermite::player::Player;
use thermite::score::{EvaluationInner, PositionEvaluation, MATE_PLIES};
use thermite::side::Side;
use thermite::square::Square;

#[test]
fn file_works() {
    let cases = [
        (Square::A1, 0),
        (Square::A4, 0),
        (Square::A8, 0),
        (Square::B8, 1),
        (Square::B2, 1),
        (Square::C5, 2),
        (Square::C7, 2),
        (Square::D3, 3),
        (Square::D1, 3),
        (Square::E8, 4),
        (Square::E2, 4),
        (Square::F7, 5),
        (Square::F4, 5),
        (Square::G6, 6),
        (Square::G2, 6),
        (Square::H3, 7),
        (Square::H8, 7),
    ];
    for (square, file_offset) in cases {
        assert_eq!(square.file(), file_offset);
    }
}

#[test]
fn rank_works() {
    let cases = [
        (Square::A1, 0),
        (Square::A4, 3),
        (Square::A8, 7),
        (Square::B8, 7),
        (Square::B2, 1),
        (Square::C5, 4),
        (Square::C7, 6),
        (Square::D3, 2),
        (Square::D1, 0),
        (Square::E8, 7),
        (Square::E2, 1),
        (Square::F7, 6),
        (Square::F4, 3),
        (Square::G6, 5),
        (Square::G2, 1),
        (Square::H3, 2),
        (Square::H8, 7),
    ];
    for (square, rank_offset) in cases {
        assert_eq!(square.rank(), rank_offset);
    }
}

#[test]
fn parse_works() {
    let cases = [
        ("a4", Some(Square::A4)),
        ("b7", Some(Square::B7)),
        ("c8", Some(Square::C8)),
        ("e3", Some(Square::E3)),
        ("f6", Some(Square::F6)),
        ("a1", Some(Square::A1)),
        ("a8", Some(Square::A8)),
        ("h8", Some(Square::H8)),
        ("h1", Some(Square::H1)),
        ("h9", None),
        ("h0", None),
        ("a9", None),
        ("a0", None),
        ("a-1", None),
        ("i3", None),
        ("l3", None),
        (" ", None),
        ("", None),
        ("\n", None),
        ("\0", None),
    ];
    for (input, expected) in cases {
        assert_eq!(Square::parse(input).ok(), expected);
        assert_eq!(Square::parse(input.to_ascii_uppercase().as_str()).ok(), expected);
    }
}

#[test]
fn fmt_works() {
    let cases = [
        (Square::A5, "a5"),
        (Square::E2, "e2"),
        (Square::E8, "e8"),
        (Square::F4, "f4"),
        (Square::A1, "a1"),
        (Square::A8, "a8"),
        (Square::H8, "h8"),
        (Square::H1, "h1"),
    ];
    for (input, expected) in cases {
        assert_eq!(input.to_uci_string().as_str(), expected);
    }
}

#[test]
fn ord_works() {
    let max = PositionEvaluation::max();
    let min = PositionEvaluation::min();
    let cases = [
        (max, min, Ordering::Greater),
        (max, PositionEvaluation::new_mating(0), Ordering::Equal),
        (max, PositionEvaluation::new_mating(1), Ordering::Greater),
        (max, PositionEvaluation::new_mating(30), Ordering::Greater),
        (max, PositionEvaluation::new_mating(50), Ordering::Greater),
        (PositionEvaluation::new_mating(0), PositionEvaluation::new_mating(1), Ordering::Greater),
        (PositionEvaluation::new_mating(1), PositionEvaluation::new_mating(2), Ordering::Greater),
        (max, PositionEvaluation::new_mated(0), Ordering::Greater),
        (max, PositionEvaluation::new_mated(10), Ordering::Greater),
        (max, PositionEvaluation::new_mated(24), Ordering::Greater),
        (max, PositionEvaluation::new_mated(50), Ordering::Greater),
        (min, PositionEvaluation::new_mating(50), Ordering::Less),
        (min, PositionEvaluation::new_mating(1), Ordering::Less),
        (min, PositionEvaluation::new_mated(0), Ordering::Equal),
        (min, PositionEvaluation::new_mated(1), Ordering::Less),
        (min, PositionEvaluation::new_mated(2), Ordering::Less),
        (PositionEvaluation::new_mated(0), PositionEvaluation::new_mated(1), Ordering::Less),
        (PositionEvaluation::new_mated(1), PositionEvaluation::new_mated(2), Ordering::Less),
        (min, PositionEvaluation::new_mated(19), Ordering::Less),
        (min, PositionEvaluation::new_mated(50), Ordering::Less),
        (PositionEvaluation(2_147_483_647), PositionEvaluation(-128_599), Ordering::Greater),
    ];
    for (left, right, expected) in cases {
        assert_eq!(left.cmp(&right), expected);
        assert_eq!((-left).cmp(&(-right)), expected.reverse());
        assert_eq!(right.cmp(&left), expected.reverse());
    }
}

#[test]
fn is_mating_works() {
    let cases = [
        (PositionEvaluation::new_mating(0), true),
        (PositionEvaluation::new_mating(1), true),
        (PositionEvaluation::new_mating(2), true),
        (PositionEvaluation::new_mating(3), true),
        (PositionEvaluation::new_mating(4), true),
        (PositionEvaluation::new_mating(23), true),
        (PositionEvaluation::new_mating(MATE_PLIES), true),
        (PositionEvaluation::new_mating(MATE_PLIES + 1), false),
        (PositionEvaluation::new_mated(0), false),
        (PositionEvaluation::new_mated(1), false),
        (PositionEvaluation::new_mated(2), false),
        (PositionEvaluation::new_mated(3), false),
        (PositionEvaluation::new_mated(4), false),
        (PositionEvaluation::new_mated(23), false),
        (PositionEvaluation::new_mated(MATE_PLIES), false),
        (PositionEvaluation::new_mated(MATE_PLIES + 1), false),
    ];
    for (score, expected) in cases {
        assert_eq!(score.is_mating(), expected);
    }
}

#[test]
fn is_mated_works() {
    let cases = [
        (PositionEvaluation::new_mated(0), true),
        (PositionEvaluation::new_mated(1), true),
        (PositionEvaluation::new_mated(2), true),
        (PositionEvaluation::new_mated(3), true),
        (PositionEvaluation::new_mated(4), true),
        (PositionEvaluation::new_mated(23), true),
        (PositionEvaluation::new_mated(MATE_PLIES), true),
        (PositionEvaluation::new_mated(MATE_PLIES + 1), false),
        (PositionEvaluation::new_mating(0), false),
        (PositionEvaluation::new_mating(1), false),
        (PositionEvaluation::new_mating(2), false),
        (PositionEvaluation::new_mating(3), false),
        (PositionEvaluation::new_mating(4), false),
        (PositionEvaluation::new_mating(23), false),
        (PositionEvaluation::new_mating(MATE_PLIES), false),
        (PositionEvaluation::new_mating(MATE_PLIES + 1), false),
    ];
    for (score, expected) in cases {
        assert_eq!(score.is_mated(), expected);
    }
}

#[test]
fn mated_in_works() {
    let cases = [
        (PositionEvaluation::new_mated(0), 0),
        (PositionEvaluation::new_mated(1), 1),
        (PositionEvaluation::new_mated(2), 2),
        (PositionEvaluation::new_mated(3), 3),
        (PositionEvaluation::new_mated(4), 4),
        (PositionEvaluation::new_mated(23), 23),
        (PositionEvaluation::new_mated(MATE_PLIES), MATE_PLIES as EvaluationInner),
    ];
    for (score, expected) in cases {
        assert_eq!(score.mated_in(), expected);
    }
}

#[test]
fn mating_in_works() {
    let cases = [
        (PositionEvaluation::new_mating(0), 0),
        (PositionEvaluation::new_mating(1), 1),
        (PositionEvaluation::new_mating(2), 2),
        (PositionEvaluation::new_mating(3), 3),
        (PositionEvaluation::new_mating(4), 4),
        (PositionEvaluation::new_mating(23), 23),
        (PositionEvaluation::new_mating(MATE_PLIES), MATE_PLIES as EvaluationInner),
    ];
    for (score, expected) in cases {
        assert_eq!(score.mating_in(), expected);
    }
}

#[test]
fn castles_not_works() {
    let cases = [
        (CastleRights::All, CastleRights::NoRights),
        (CastleRights::WhiteBoth, CastleRights::BlackBoth),
        (CastleRights::BothKings, CastleRights::BothQueens),
        (CastleRights::WhiteBothBlackQueen, CastleRights::BlackKing),
        (CastleRights::WhiteKingBlackQueen, CastleRights::WhiteQueenBlackKing),
    ];
    for (input, expected) in cases {
        assert_eq!(input.not(), expected);
        assert_eq!(expected.not(), input);
    }
}

#[test]
fn castles_are_expected_u8() {
    let cases = [
        (CastleRights::NoRights, 0b0000),
        (CastleRights::WhiteKing, 0b0001),
        (CastleRights::WhiteQueen, 0b0010),
        (CastleRights::WhiteBoth, 0b0011),
        (CastleRights::BlackKing, 0b0100),
        (CastleRights::BothKings, 0b0101),
        (CastleRights::WhiteQueenBlackKing, 0b0110),
        (CastleRights::WhiteBothBlackKing, 0b0111),
        (CastleRights::BlackQueen, 0b1000),
        (CastleRights::WhiteKingBlackQueen, 0b1001),
        (CastleRights::BothQueens, 0b1010),
        (CastleRights::WhiteBothBlackQueen, 0b1011),
        (CastleRights::BlackBoth, 0b1100),
        (CastleRights::WhiteKingBlackBoth, 0b1101),
        (CastleRights::WhiteQueenBlackBoth, 0b1110),
        (CastleRights::All, 0b1111),
    ];
    for (castle_rights, expected_repr) in cases {
        assert_eq!(castle_rights.bits(), expected_repr);
    }
}

#[test]
fn get_unoccupied_path_works() {
    let cases = [
        (Player::White, CastleDirection::QueenSide, BoardMask::new(0xE)),
        (Player::White, CastleDirection::KingSide, BoardMask::new(0x60)),
        (Player::Black, CastleDirection::QueenSide, BoardMask::new(0x0E00_0000_0000_0000)),
        (Player::Black, CastleDirection::KingSide, BoardMask::new(0x6000_0000_0000_0000)),
    ];
    let castles = Castles::default();
    for (side, direction, expected) in cases {
        assert_eq!(castles.get_unoccupied_path(side, direction), expected);
    }
}

#[test]
fn get_lower_char_works() {
    let cases = [
        (PieceType::Pawn, 'p'),
        (PieceType::Knight, 'n'),
        (PieceType::Bishop, 'b'),
        (PieceType::Rook, 'r'),
        (PieceType::Queen, 'q'),
        (PieceType::King, 'k'),
    ];
    for (piece, expected) in cases {
        assert_eq!(piece.get_lower_char(), expected);
    }
}

#[test]
fn get_upper_char_works() {
    let cases = [
        (PieceType::Pawn, 'P'),
        (PieceType::Knight, 'N'),
        (PieceType::Bishop, 'B'),
        (PieceType::Rook, 'R'),
        (PieceType::Queen, 'Q'),
        (PieceType::King, 'K'),
    ];
    for (piece, expected) in cases {
        assert_eq!(piece.get_upper_char(), expected);
    }
}

#[test]
fn player_switch_works() {
    assert_eq!(Player::White.switch(), Player::Black);
    assert_eq!(Player::Black.switch(), Player::White);
    for input in [Player::White, Player::Black] {
        assert_eq!(input.switch().switch(), input);
    }
}

#[test]
fn side_switch_works() {
    assert_eq!(Side::White.switch(), Side::Black);
    assert_eq!(Side::Black.switch(), Side::White);
    for input in [Side::White, Side::Black] {
        assert_eq!(input.switch().switch(), input);
    }
}

const CASTLING_FEN_WHITE: &str = "r3k2r/1pppppp1/8/8/8/8/1PPPPPP1/R3K2R w KQkq - 0 1";
const CASTLING_FEN_BLACK: &str = "r3k2r/1pppppp1/8/8/8/8/1PPPPPP1/R3K2R b KQkq - 0 1";

fn castle(from: Square, to: Square, castle_direction: CastleDirection) -> ChessMove {
    ChessMove { from, to, move_type: MoveType::Castle { castle_direction } }
}

fn rook_capture(from: Square, to: Square) -> ChessMove {
    ChessMove { from, to, move_type: MoveType::Capture { piece_type: PieceType::Rook, captured_piece: PieceType::Rook } }
}

#[test]
fn castle_removes_rights() {
    let cases = [
        (CASTLING_FEN_WHITE, castle(Square::E1, Square::G1, CastleDirection::KingSide), CastleRights::WhiteBoth),
        (CASTLING_FEN_WHITE, castle(Square::E1, Square::C1, CastleDirection::QueenSide), CastleRights::WhiteBoth),
        (CASTLING_FEN_BLACK, castle(Square::E8, Square::G8, CastleDirection::KingSide), CastleRights::BlackBoth),
        (CASTLING_FEN_BLACK, castle(Square::E8, Square::C8, CastleDirection::QueenSide), CastleRights::BlackBoth),
    ];
    for (fen, chess_move, removed_rights) in cases {
        let mut position = Board::from_fen(fen).expect("illegal FEN");
        assert_eq!(*position.state.castles.as_ref() & removed_rights, removed_rights);
        let _ = position.make_move(chess_move);
        assert_eq!(*position.state.castles.as_ref() & removed_rights, CastleRights::NoRights);
    }
}

#[test]
fn capturing_castle_removes_rights() {
    let cases = [
        (CASTLING_FEN_WHITE, rook_capture(Square::A1, Square::A8), CastleRights::BlackQueen),
        (CASTLING_FEN_WHITE, rook_capture(Square::H1, Square::H8), CastleRights::BlackKing),
        (CASTLING_FEN_BLACK, rook_capture(Square::A8, Square::A1), CastleRights::WhiteQueen),
        (CASTLING_FEN_BLACK, rook_capture(Square::H8, Square::H1), CastleRights::WhiteKing),
    ];
    for (fen, chess_move, removed_rights) in cases {
        let mut position = Board::from_fen(fen).expect("illegal FEN");
        assert_eq!(*position.state.castles.as_ref() & removed_rights, removed_rights);
        let _ = position.make_move(chess_move);
        assert_eq!(*position.state.castles.as_ref() & removed_rights, CastleRights::NoRights);
    }
}

fn assert_promoted(fen: &str, chess_move: ChessMove, player: Player) {
    let mut position = Board::from_fen(fen).expect("illegal FEN");
    let _ = position.make_move(chess_move);
    assert_eq!(position.piece_on(chess_move.to), Some(PieceType::Queen));
    assert_eq!(position.side_on(chess_move.to), Some(player));
    assert_eq!(position.piece_on(chess_move.from), None);
    assert_eq!(position.side_on(chess_move.from), None);
}

#[test]
fn make_promotion_works() {
    let promotion = MoveType::Promotion { promotion: PromotionPieceType::Queen };
    assert_promoted(
        "4r3/1pP2kp1/3R4/1p3pP1/1r6/1P6/1K2p3/4R3 w - - 0 1",
        ChessMove { from: Square::C7, to: Square::C8, move_type: promotion },
        Player::White,
    );
    assert_promoted(
        "4r3/1pP2kp1/3R4/1p3pP1/1r6/1P6/1K2p3/8 b - - 0 1",
        ChessMove { from: Square::E2, to: Square::E1, move_type: promotion },
        Player::Black,
    );
}

#[test]
fn make_promoting_capture_works() {
    let promotion = MoveType::PromotingCapture { promotion: PromotionPieceType::Queen, captured_piece: PieceType::Rook };
    assert_promoted(
        "1k6/3R4/PPP5/4p3/4P3/6p1/1p4P1/2RK4 b - - 0 1",
        ChessMove { from: Square::B2, to: Square::C1, move_type: promotion },
        Player::Black,
    );
    assert_promoted(
        "1k1r3r/p3P1p1/4p1p1/5p2/2Qq3P/5BP1/PP3PK1/2R5 w - - 0 1",
        ChessMove { from: Square::E7, to: Square::D8, move_type: promotion },
        Player::White,
    );
}
