use thermite::chess_move::double_pawn_push::DoublePawnPush;
use thermite::chess_move::en_passant_capture::{EnPassantCapture, PawnCaptureDirection};
use thermite::chess_move::quiet::Quiet;
use thermite::chess_move::ChessMove;
use thermite::move_type::MoveType;
use thermite::piece_type::PieceType;
use thermite::player::Player;
use thermite::promotion_piece_type::PromotionPieceType;
use thermite::sided_piece::SidedPiece;
use thermite::square::Square;

#[test]
fn reverse_works() {
    let cases = [
        (SidedPiece::new(PieceType::Pawn, Player::White), Square::A4, Square::A6),
        (SidedPiece::new(PieceType::Pawn, Player::Black), Square::B7, Square::H1),
    ];
    for (piece, from, to) in cases {
        assert_eq!(Quiet::new(from, to, piece).unwrap().reverse(), Quiet::new(to, from, piece).unwrap());
    }
}

#[test]
fn quiet_rejects_same_squares() {
    let knight = SidedPiece::new(PieceType::Knight, Player::White);
    assert_eq!(Quiet::new(Square::G1, Square::G1, knight), None);
    let quiet = Quiet::new(Square::G1, Square::F3, knight).unwrap();
    assert_eq!(quiet.from(), Square::G1);
    assert_eq!(quiet.to(), Square::F3);
    assert_eq!(quiet.piece(), knight);
    assert_eq!(quiet.reverse().reverse(), quiet);
}

#[test]
fn double_pawn_push_squares() {
    let white = DoublePawnPush::new(Player::White, 4);
    assert_eq!(white.from(), Square::E2);
    assert_eq!(white.to(), Square::E4);
    assert_eq!(white.en_passant_square(), Square::E3);
    let black = DoublePawnPush::new(Player::Black, 0);
    assert_eq!(black.from(), Square::A7);
    assert_eq!(black.to(), Square::A5);
    assert_eq!(black.en_passant_square(), Square::A6);
    let quiet: Quiet = black.into();
    assert_eq!(quiet.from(), Square::A7);
    assert_eq!(quiet.to(), Square::A5);
    assert_eq!(quiet.piece(), SidedPiece::new(PieceType::Pawn, Player::Black));
}

#[test]
fn en_passant_capture_from_square() {
    let capture = EnPassantCapture::new_from(Square::F5, PawnCaptureDirection::West, Player::White).unwrap();
    assert_eq!(capture.from(), Square::F5);
    assert_eq!(capture.to(), Square::E6);
    assert_eq!(capture.captured_square(), Square::E5);
    assert_eq!(capture.player(), Player::White);
    assert_eq!(EnPassantCapture::new_from(Square::A5, PawnCaptureDirection::West, Player::White), None);
    assert_eq!(EnPassantCapture::new_from(Square::H4, PawnCaptureDirection::East, Player::Black), None);
    let black = EnPassantCapture::new_from(Square::C4, PawnCaptureDirection::East, Player::Black).unwrap();
    assert_eq!(black.to(), Square::D3);
    assert_eq!(black.captured_square(), Square::D4);
}

#[test]
fn en_passant_capture_to_square() {
    let capture = EnPassantCapture::new_en_passant_square(Square::E6, PawnCaptureDirection::West, Player::White).unwrap();
    assert_eq!(capture, EnPassantCapture::new_from(Square::F5, PawnCaptureDirection::West, Player::White).unwrap());
    assert_eq!(EnPassantCapture::new_en_passant_square(Square::A3, PawnCaptureDirection::East, Player::Black), None);
    let black = EnPassantCapture::new_en_passant_square(Square::A3, PawnCaptureDirection::West, Player::Black).unwrap();
    assert_eq!(black.from(), Square::B4);
    assert_eq!(black.captured_square(), Square::A4);
    let quiet: Quiet = black.into();
    assert_eq!(quiet.from(), Square::B4);
    assert_eq!(quiet.to(), Square::A3);
    assert_eq!(quiet.piece(), SidedPiece::new(PieceType::Pawn, Player::Black));
}

#[test]
fn chess_move_uci_text() {
    let push = ChessMove { move_type: MoveType::DoublePawnPush { en_passant_square: Square::E3 }, from: Square::E2, to: Square::E4 };
    assert_eq!(push.to_uci_string(), "e2e4");
    let promotion = ChessMove { move_type: MoveType::Promotion { promotion: PromotionPieceType::Knight }, from: Square::B7, to: Square::B8 };
    assert_eq!(promotion.to_uci_string(), "b7b8n");
}
