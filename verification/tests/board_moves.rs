use thermite::bitboard::BoardMask;
use thermite::board::fen::FenParseError;
use thermite::board::Board;
use thermite::castles::{CastleDirection, CastleRights};
use thermite::chess_move::ChessMove;
use thermite::move_type::MoveType;
use thermite::piece_type::PieceType;
use thermite::player::Player;
use thermite::position::hash_history::HashHistory;
use thermite::position::IllegalPosition;
use thermite::promotion_piece_type::PromotionPieceType;
use thermite::sided_piece::SidedPiece;
use thermite::square::Square;
use thermite::zobrist::{HistoryHash, ZobristHash};

const STARTPOS: &str = "rnbqkbnr/pppppppp/8/8/8/8/PPPPPPPP/RNBQKBNR w KQkq - 0 1";

fn board(fen: &str) -> Board {
    Board::from_fen(fen).expect("illegal FEN")
}

fn quiet(from: Square, to: Square, piece_type: PieceType) -> ChessMove {
    ChessMove { move_type: MoveType::Quiet { piece_type }, from, to }
}

#[test]
fn repetitions_works() {
    let a = ZobristHash::new(0x0123_4567_89AB_CD01);
    let b = ZobristHash::new(0xFEDC_BA98_7654_3202);

    let mut history = HashHistory::new();
    assert_eq!(history.repetitions::<1>().len(), 0);

    history.push(a);
    assert_eq!(history.repetitions::<1>().len(), 1);
    assert_eq!(history.repetitions::<2>().len(), 0);

    history.push(b);
    assert_eq!(history.repetitions::<1>().len(), 2);
    assert_eq!(history.repetitions::<2>().len(), 0);

    history.push(a);
    assert_eq!(history.repetitions::<1>().len(), 2);
    assert_eq!(history.repetitions::<2>().len(), 1);
    assert_eq!(history.repetitions::<3>().len(), 0);

    history.push(b);
    assert_eq!(history.repetitions::<1>().len(), 2);
    assert_eq!(history.repetitions::<2>().len(), 2);
    assert_eq!(history.repetitions::<3>().len(), 0);

    history.push(a);
    assert_eq!(history.repetitions::<1>().len(), 2);
    assert_eq!(history.repetitions::<2>().len(), 2);
    assert_eq!(history.repetitions::<3>().len(), 1);

    history.push(b);
    assert_eq!(history.repetitions::<1>().len(), 2);
    assert_eq!(history.repetitions::<2>().len(), 2);
    assert_eq!(history.repetitions::<3>().len(), 2);

    history.pop();
    assert_eq!(history.repetitions::<1>().len(), 2);
    assert_eq!(history.repetitions::<2>().len(), 2);
    assert_eq!(history.repetitions::<3>().len(), 1);

    history.pop();
    assert_eq!(history.repetitions::<1>().len(), 2);
    assert_eq!(history.repetitions::<2>().len(), 2);
    assert_eq!(history.repetitions::<3>().len(), 0);

    history.clear();
    assert_eq!(history.repetitions::<1>().len(), 0);
    assert_eq!(history.repetitions::<2>().len(), 0);
    assert_eq!(history.repetitions::<3>().len(), 0);
}

#[test]
fn make_move_switches_sides() {
    let mut pos = board(STARTPOS);
    let chess_move = quiet(Square::F2, Square::F3, PieceType::Pawn);
    assert_eq!(pos.side_to_move(), Player::White);
    let _ = pos.make_move(chess_move);
    assert_eq!(pos.side_to_move(), Player::Black);
}

#[test]
fn make_quiet_works() {
    let mut pos = board(STARTPOS);
    let chess_move = quiet(Square::F2, Square::F3, PieceType::Pawn);
    assert_eq!((pos.piece_on(Square::F2), pos.side_on(Square::F2)), (Some(PieceType::Pawn), Some(Player::White)));
    assert_eq!(pos.piece_on(Square::F3), None);
    let _ = pos.make_move(chess_move);
    assert_eq!(pos.piece_on(Square::F2), None);
    assert_eq!((pos.piece_on(Square::F3), pos.side_on(Square::F3)), (Some(PieceType::Pawn), Some(Player::White)));
}

#[test]
fn try_remove_castle_rights_works() {
    // Removing all
    let mut position = board("r3k2r/1pppppp1/8/8/8/8/1PPPPPP1/R3K2R w KQkq - 0 1");
    position.try_remove_castle_rights(CastleRights::All);
    assert_eq!(*position.state.castles.as_ref(), CastleRights::NoRights);

    // Removing one at at time
    let mut position = board("r3k2r/1pppppp1/8/8/8/8/1PPPPPP1/R3K2R w KQkq - 0 1");
    let previous_hash = position.zobrist_key();
    position.try_remove_castle_rights(CastleRights::WhiteKing);
    assert_eq!(*position.state.castles.as_ref(), CastleRights::WhiteQueenBlackBoth);
    assert_ne!(position.zobrist_key(), previous_hash);
    let previous_hash = position.zobrist_key();
    position.try_remove_castle_rights(CastleRights::WhiteQueen);
    assert_eq!(*position.state.castles.as_ref(), CastleRights::BlackBoth);
    assert_ne!(position.zobrist_key(), previous_hash);
    let previous_hash = position.zobrist_key();
    position.try_remove_castle_rights(CastleRights::BlackKing);
    assert_eq!(*position.state.castles.as_ref(), CastleRights::BlackQueen);
    assert_ne!(position.zobrist_key(), previous_hash);
    let previous_hash = position.zobrist_key();
    position.try_remove_castle_rights(CastleRights::BlackQueen);
    assert_eq!(*position.state.castles.as_ref(), CastleRights::NoRights);
    assert_ne!(position.zobrist_key(), previous_hash);
}

fn assert_fen_round_trip(fen: &str) {
    assert_eq!(board(fen).get_fen_string().as_str(), fen);
}

#[test]
fn from_to_fen_is_symmetric_startpos() {
    assert_fen_round_trip(STARTPOS);
}

#[test]
fn from_to_fen_is_symmetric_kiwipete() {
    assert_fen_round_trip("r3k2r/p1ppqpb1/bn2pnp1/3PN3/1p2P3/2N2Q1p/PPPBBPPP/R3K2R w KQkq - 0 1");
}

#[test]
fn from_to_fen_is_symmetric_position_3() {
    assert_fen_round_trip("8/2p5/3p4/KP5r/1R3p1k/8/4P1P1/8 w - - 0 1");
}

#[test]
fn from_to_fen_is_symmetric_position_4() {
    assert_fen_round_trip("r3k2r/Pppp1ppp/1b3nbN/nP6/BBP1P3/q4N2/Pp1P2PP/R2Q1RK1 w kq - 0 1");
}

#[test]
fn from_to_fen_is_symmetric_position_4_mirrored() {
    assert_fen_round_trip("r2q1rk1/pP1p2pp/Q4n2/bbp1p3/Np6/1B3NBn/pPPP1PPP/R3K2R b KQ - 0 1");
}

#[test]
fn from_to_fen_is_symmetric_position_5() {
    assert_fen_round_trip("rnbq1k1r/pp1Pbppp/2p5/8/2B5/8/PPP1NnPP/RNBQK2R w KQ - 1 8");
}

#[test]
fn from_to_fen_is_symmetric_position_6() {
    assert_fen_round_trip("r4rk1/1pp1qppp/p1np1n2/2b1p1B1/2B1P1b1/P1NP1N2/1PP1QPPP/R4RK1 w - - 0 10");
}

#[test]
fn from_fen_matches_starting_position() {
    let mut position = board(STARTPOS);
    // the FEN's full move counter of 1 counts two half moves
    assert_eq!(position.halfmove_count, 2);
    position.halfmove_count = 0;
    assert_eq!(position, Board::starting_position());
}

#[test]
fn from_fen_reports_errors() {
    assert_eq!(Board::from_fen(""), Err(FenParseError::MissingPosition));
    assert_eq!(Board::from_fen("   "), Err(FenParseError::MissingPosition));
    assert_eq!(Board::from_fen("rnbqkbnr/pppppppp/8/8/8/8/PPPPPPPP"), Err(FenParseError::InvalidBoardDimensions));
    assert_eq!(Board::from_fen("rnbqkbnr/pppppppp/9/8/8/8/PPPPPPPP/RNBQKBNR w KQkq - 0 1"), Err(FenParseError::InvalidBoardDimensions));
    assert_eq!(Board::from_fen("rnbqkbnr/pppppppp/7/8/8/8/PPPPPPPP/RNBQKBNR w KQkq - 0 1"), Err(FenParseError::InvalidBoardDimensions));
    assert_eq!(Board::from_fen("rnbqkbnr/pppppppp/8/8/8/8/PPPPPPPP/RNBQKBNR"), Err(FenParseError::MissingSide));
    assert_eq!(Board::from_fen("rnbqkbnr/pppppppp/8/8/8/8/PPPPPPPP/RNBQKBNR x KQkq - 0 1"), Err(FenParseError::IllegalSideChar('x')));
    assert_eq!(Board::from_fen("rnbqkbnr/pppppppp/8/8/8/8/PPPPPPPP/RNBQKBNR w"), Err(FenParseError::MissingCastleRights));
    assert_eq!(Board::from_fen("rnbqkbnr/pppppppp/8/8/8/8/PPPPPPPP/RNBQKBNR w QK - 0 1"), Err(FenParseError::IllegalCastleRights));
    assert_eq!(Board::from_fen("rnbqkbnr/pppppppp/8/8/8/8/PPPPPPPP/RNBQKBNR w KQkq"), Err(FenParseError::MissingEnPassant));
    assert_eq!(Board::from_fen("rnbqkbnr/pppppppp/8/8/8/8/PPPPPPPP/RNBQKBNR w KQkq e4 0 1"), Err(FenParseError::IllegalEnPassant));
    assert_eq!(Board::from_fen("rnbqkbnr/pppppppp/8/8/8/8/PPPPPPPP/RNBQKBNR w KQkq z9 0 1"), Err(FenParseError::IllegalEnPassant));
    assert_eq!(Board::from_fen("rnbqkbnr/pppppppp/8/8/8/8/PPPPPPPP/RNBQKBNR w KQkq - 100 1"), Err(FenParseError::IllegalHalfmoveClock));
    assert_eq!(Board::from_fen("rnbqkbnr/pppppppp/8/8/8/8/PPPPPPPP/RNBQKBNR w KQkq - x 1"), Err(FenParseError::IllegalHalfmoveClock));
    assert_eq!(Board::from_fen("rnbqkbnr/pppppppp/8/8/8/8/PPPPPPPP/RNBQKBNR w KQkq - 0 40000"), Err(FenParseError::IllegalFullmoveCounter));
    assert_eq!(Board::from_fen("rnbqkbnr/pppppppp/8/8/8/8/PPPPPPPP/RNBQKBNR w KQkq - 0 -1"), Err(FenParseError::IllegalFullmoveCounter));
}

#[test]
fn from_fen_reads_optional_counters() {
    let position = board("rnbqkbnr/pppppppp/8/8/4P3/8/PPPP1PPP/RNBQKBNR b KQkq e3");
    assert_eq!(position.state.en_passant_square(), Some(Square::E3));
    assert_eq!(position.state.halfmove_clock(), 0);
    assert_eq!(position.fullmove_count(), 0);
    let position = board("rnbqkbnr/pppppppp/8/8/4P3/8/PPPP1PPP/RNBQKBNR b KQkq e3 +7 +12");
    assert_eq!(position.state.halfmove_clock(), 7);
    assert_eq!(position.fullmove_count(), 12);
    assert_eq!(position.side_to_move(), Player::Black);
}

fn assert_unmake_restores(fen: &str, chess_move: ChessMove) {
    let mut position = board(fen);
    let expected = board(fen);
    let state = position.make_move(chess_move);
    position.unmake_move(chess_move, state);
    assert_eq!(position, expected);
}

#[test]
fn unmake_move_gives_previous_board_cases() {
    const POS_1_MATE_IN_THREE_W: &str = "r7/6Q1/2pp4/p6k/1qP1P3/6P1/P4PK1/8 w - - 0 1";
    const POS_1_MATE_IN_THREE_B: &str = "r7/6Q1/2pp4/p6k/1qP1P1P1/8/P4PK1/8 b - - 0 1";
    const POS_1_MATE_IN_TWO_W: &str = "r7/6Q1/2pp4/p7/1qP1P1Pk/8/P4PK1/8 w - - 1 2";
    const POS_1_MATE_IN_TWO_B: &str = "r7/8/2pp3Q/p7/1qP1P1Pk/8/P4PK1/8 b - - 2 2";
    const POS_1_MATE_IN_ONE_W: &str = "r7/8/2pp3Q/p7/1qP1P1k1/8/P4PK1/8 w - - 0 3";
    assert_unmake_restores(STARTPOS, ChessMove { to: Square::E4, from: Square::E2, move_type: MoveType::DoublePawnPush { en_passant_square: Square::E3 } });
    assert_unmake_restores(STARTPOS, quiet(Square::E2, Square::E3, PieceType::Pawn));
    assert_unmake_restores(STARTPOS, quiet(Square::B1, Square::C3, PieceType::Knight));
    assert_unmake_restores(STARTPOS, quiet(Square::G1, Square::F3, PieceType::Knight));
    assert_unmake_restores(POS_1_MATE_IN_THREE_W, quiet(Square::G3, Square::G4, PieceType::Pawn));
    assert_unmake_restores(POS_1_MATE_IN_THREE_B, quiet(Square::H5, Square::H4, PieceType::King));
    assert_unmake_restores(POS_1_MATE_IN_TWO_W, quiet(Square::G7, Square::H6, PieceType::Queen));
    assert_unmake_restores(POS_1_MATE_IN_TWO_B, ChessMove { to: Square::G4, from: Square::H4, move_type: MoveType::Capture { piece_type: PieceType::King, captured_piece: PieceType::Pawn } });
    assert_unmake_restores(POS_1_MATE_IN_ONE_W, quiet(Square::F2, Square::F3, PieceType::Pawn));
}

#[test]
fn unmake_special_moves_gives_previous_board() {
    assert_unmake_restores("r3k2r/1pppppp1/8/8/8/8/1PPPPPP1/R3K2R w KQkq - 0 1", ChessMove { from: Square::E1, to: Square::G1, move_type: MoveType::Castle { castle_direction: CastleDirection::KingSide } });
    assert_unmake_restores("r3k2r/1pppppp1/8/8/8/8/1PPPPPP1/R3K2R b KQkq - 0 1", ChessMove { from: Square::E8, to: Square::C8, move_type: MoveType::Castle { castle_direction: CastleDirection::QueenSide } });
    assert_unmake_restores("8/2p5/3p4/1P6/K3Pp1r/6k1/6P1/1R6 b - e3 0 3", ChessMove { from: Square::F4, to: Square::E3, move_type: MoveType::EnPassantCapture { captured_pawn_square: Square::E4 } });
    assert_unmake_restores("4r3/1pP2kp1/3R4/1p3pP1/1r6/1P6/1K2p3/4R3 w - - 0 1", ChessMove { from: Square::C7, to: Square::C8, move_type: MoveType::Promotion { promotion: PromotionPieceType::Queen } });
    assert_unmake_restores("1k1r3r/p3P1p1/4p1p1/5p2/2Qq3P/5BP1/PP3PK1/2R5 w - - 0 1", ChessMove { from: Square::E7, to: Square::D8, move_type: MoveType::PromotingCapture { promotion: PromotionPieceType::Queen, captured_piece: PieceType::Rook } });
}

#[test]
fn make_castle_moves_rook_and_drops_rights() {
    let mut position = board("r3k2r/1pppppp1/8/8/8/8/1PPPPPP1/R3K2R w KQkq - 0 1");
    let _ = position.make_move(ChessMove { from: Square::E1, to: Square::G1, move_type: MoveType::Castle { castle_direction: CastleDirection::KingSide } });
    assert_eq!(position.piece_on(Square::G1), Some(PieceType::King));
    assert_eq!(position.piece_on(Square::F1), Some(PieceType::Rook));
    assert_eq!(position.piece_on(Square::H1), None);
    assert_eq!(*position.state.castles.as_ref(), CastleRights::BlackBoth);
    assert_eq!(position.get_fen_string(), "r3k2r/1pppppp1/8/8/8/8/1PPPPPP1/R4RK1 b kq - 1 1");
}

#[test]
fn make_rook_move_drops_one_right() {
    let mut position = board("r3k2r/1pppppp1/8/8/8/8/1PPPPPP1/R3K2R w KQkq - 0 1");
    let _ = position.make_move(quiet(Square::H1, Square::H5, PieceType::Rook));
    assert_eq!(*position.state.castles.as_ref(), CastleRights::WhiteQueenBlackBoth);
    let _ = position.make_move(ChessMove { from: Square::A8, to: Square::A1, move_type: MoveType::Capture { piece_type: PieceType::Rook, captured_piece: PieceType::Rook } });
    assert_eq!(*position.state.castles.as_ref(), CastleRights::BlackKing);
    assert_eq!(position.state.captured_piece(), Some(PieceType::Rook));
    assert_eq!(position.state.halfmove_clock(), 0);
}

#[test]
fn double_pawn_push_sets_en_passant_square() {
    let mut position = board(STARTPOS);
    let _ = position.make_move(ChessMove { from: Square::E2, to: Square::E4, move_type: MoveType::DoublePawnPush { en_passant_square: Square::E3 } });
    assert_eq!(position.get_fen_string(), "rnbqkbnr/pppppppp/8/8/4P3/8/PPPP1PPP/RNBQKBNR b KQkq e3 0 1");
}

#[test]
fn gives_check_works() {
    let position = board("8/2p5/3p4/1P6/K3Pp1r/6k1/6P1/1R6 b - e3 0 3");
    assert!(position.gives_check(ChessMove { from: Square::F4, to: Square::E3, move_type: MoveType::EnPassantCapture { captured_pawn_square: Square::E4 } }));
    let position = board("r7/8/2pp3Q/p7/1qP1P1k1/8/P4PK1/8 w - - 0 3");
    assert!(position.gives_check(quiet(Square::F2, Square::F3, PieceType::Pawn)));
    assert!(!Board::starting_position().gives_check(ChessMove { from: Square::E2, to: Square::E4, move_type: MoveType::DoublePawnPush { en_passant_square: Square::E3 } }));
}

#[test]
fn starting_position_queries_work() {
    let position = Board::starting_position();
    assert_eq!(position.king_square(Player::Black), Some(Square::E8));
    assert_eq!(position.king_square(Player::White), Some(Square::E1));
    assert!(!position.is_blocker(Player::Black, Square::E2));
    assert!(!position.is_discovery(Player::Black, Square::E2, Square::E4));
    assert!(!position.is_direct_check(PieceType::Pawn, Square::E4));
    assert!(!position.in_check());
    assert_eq!(position.occupied().num_squares(), 32);
    assert_eq!(position.side_mask(Player::White).0, 0xFFFF);
    assert_eq!(position.pieces_mask([PieceType::Rook, PieceType::King]).0, 0x9100_0000_0000_0091);
}

#[test]
fn checkers_and_pins_are_found() {
    let position = board("4k3/8/8/8/8/8/4r3/4K3 w - - 0 1");
    assert!(position.in_check());
    assert_eq!(position.checkers(), Square::E2.to_mask());
    let position = board("4k3/4r3/8/8/8/8/4B3/4K3 w - - 0 1");
    assert_eq!(position.state.blockers_for(Player::White), Square::E2.to_mask());
    assert_eq!(position.state.pinners_for(Player::White), Square::E7.to_mask());
}

#[test]
fn hashes_agree_for_transpositions() {
    let mut first = Board::starting_position();
    let _ = first.make_move(quiet(Square::G1, Square::F3, PieceType::Knight));
    let _ = first.make_move(quiet(Square::G8, Square::F6, PieceType::Knight));
    let mut second = Board::starting_position();
    let _ = second.make_move(quiet(Square::G1, Square::H3, PieceType::Knight));
    let _ = second.make_move(quiet(Square::G8, Square::F6, PieceType::Knight));
    let _ = second.make_move(quiet(Square::H3, Square::G1, PieceType::Knight));
    let _ = second.make_move(quiet(Square::F6, Square::G8, PieceType::Knight));
    let _ = second.make_move(quiet(Square::G1, Square::F3, PieceType::Knight));
    let _ = second.make_move(quiet(Square::G8, Square::F6, PieceType::Knight));
    assert_eq!(first.zobrist_key(), second.zobrist_key());
    assert_ne!(first.zobrist_key(), Board::starting_position().zobrist_key());
}

#[test]
fn diagram_shows_pieces_fen_and_checker() {
    let position = board("4k3/8/8/8/8/8/4r3/4K3 w - - 0 1");
    let expected = "\n  A B C D E F G H  \n\
        8 - - - - k - - - 8\n\
        7 - - - - - - - - 7\t\tFEN: 4k3/8/8/8/8/8/4r3/4K3 w - - 0 1\n\
        6 - - - - - - - - 6\n\
        5 - - - - - - - - 5\t\tCheckers: e2\n\
        4 - - - - - - - - 4\t\tHash: 0x677A7CBADE7DCD9\n\
        3 - - - - - - - - 3\n\
        2 - - - - r - - - 2\n\
        1 - - - - K - - - 1\n  A B C D E F G H  \n";
    assert_eq!(position.diagram(), expected);
    let start = Board::starting_position().diagram();
    assert!(start.contains("8 r n b q k b n r 8\n"));
    assert!(start.contains("1 R N B Q K B N R 1\n"));
    assert!(start.contains("\t\tCheckers: -\n"));
    assert!(start.contains("4 - - - - - - - - 4\t\tHash: 0xF3C19C2DE9C29271\n"));
}

#[test]
fn check_squares_are_where_pieces_would_attack_the_king() {
    let position = Board::starting_position();
    let squares = |piece_type: PieceType| position.state.check_squares_for(piece_type).squares_vec();
    assert_eq!(squares(PieceType::Knight), vec![Square::D6, Square::F6, Square::C7, Square::G7]);
    assert_eq!(squares(PieceType::Pawn), vec![Square::D7, Square::F7]);
    assert_eq!(squares(PieceType::Bishop), vec![Square::D7, Square::F7]);
    assert_eq!(squares(PieceType::Rook), vec![Square::E7, Square::D8, Square::F8]);
    assert_eq!(squares(PieceType::Queen), vec![Square::D7, Square::E7, Square::F7, Square::D8, Square::F8]);
}

#[test]
fn castle_rights_are_hashed() {
    let with_rights = board("r3k2r/8/8/8/8/8/8/R3K2R w KQkq - 0 1");
    let without_rights = board("r3k2r/8/8/8/8/8/8/R3K2R w - - 0 1");
    assert_ne!(with_rights.zobrist_key(), without_rights.zobrist_key());
    assert_eq!(with_rights.zobrist_key(), 0x8DFE_5F79_94F6_AC70);
    assert_eq!(without_rights.zobrist_key(), 0xB880_A680_BB36_2714);
    assert_eq!(Board::starting_position().zobrist_key(), board(STARTPOS).zobrist_key());
    assert_eq!(board(STARTPOS).zobrist_key(), 0xF3C1_9C2D_E9C2_9271);
}

#[test]
fn removing_all_castle_rights_gives_the_hash_of_the_position_without_them() {
    let mut position = board("r3k2r/8/8/8/8/8/8/R3K2R w KQkq - 0 1");
    position.try_remove_castle_rights(CastleRights::All);
    assert_eq!(position.zobrist_key(), board("r3k2r/8/8/8/8/8/8/R3K2R w - - 0 1").zobrist_key());
}

#[test]
fn en_passant_square_is_hashed() {
    let mut position = Board::starting_position();
    let _ = position.make_move(ChessMove {
        from: Square::E2,
        to: Square::E4,
        move_type: MoveType::DoublePawnPush { en_passant_square: Square::E3 },
    });
    let with_square = board("rnbqkbnr/pppppppp/8/8/4P3/8/PPPP1PPP/RNBQKBNR b KQkq e3 0 1");
    let without_square = board("rnbqkbnr/pppppppp/8/8/4P3/8/PPPP1PPP/RNBQKBNR b KQkq - 0 1");
    assert_eq!(position.zobrist_key(), with_square.zobrist_key());
    assert_eq!(with_square.zobrist_key(), 0xCDA6_CE20_D0E3_FC65);
    assert_eq!(without_square.zobrist_key(), 0x3AA9_A1E0_5F5F_90B7);
}

#[test]
fn unmaking_restores_the_hash_with_state() {
    let mut position = board("r3k2r/1pppppp1/8/8/8/8/1PPPPPP1/R3K2R w KQkq - 0 1");
    let start = position.zobrist_key();
    let chess_move = quiet(Square::E1, Square::F1, PieceType::King);
    let previous_state = position.make_move(chess_move);
    assert_eq!(position.zobrist_key(), board("r3k2r/1pppppp1/8/8/8/8/1PPPPPP1/R4K1R b kq - 1 1").zobrist_key());
    position.unmake_move(chess_move, previous_state);
    assert_eq!(position.zobrist_key(), start);
}

#[test]
fn pawn_pushes_reset_the_halfmove_clock() {
    let mut position = board("r3k2r/1pppppp1/8/8/8/8/1PPPPPP1/R3K2R w KQkq - 12 24");
    let _ = position.make_move(quiet(Square::A1, Square::B1, PieceType::Rook));
    assert_eq!(position.state.halfmove_clock(), 13);
    let _ = position.make_move(quiet(Square::B7, Square::B6, PieceType::Pawn));
    assert_eq!(position.state.halfmove_clock(), 0);
    let _ = position.make_move(quiet(Square::B1, Square::A1, PieceType::Rook));
    assert_eq!(position.state.halfmove_clock(), 1);
}

#[test]
fn repetitions_lists_each_repeated_hash_once() {
    let a = ZobristHash::new(0x0123_4567_89AB_CD01);
    let b = ZobristHash::new(0xFEDC_BA98_7654_3202);
    let mut history = HashHistory::new();
    history.push(a);
    history.push(b);
    history.push(a);
    history.push(a);
    assert_eq!(history.repetitions::<1>(), vec![HistoryHash::from(a), HistoryHash::from(b)]);
    assert_eq!(history.repetitions::<2>(), vec![HistoryHash::from(a)]);
    assert_eq!(history.repetitions::<3>(), vec![HistoryHash::from(a)]);
    assert_eq!(history.repetitions::<4>(), Vec::<HistoryHash>::new());
    assert_eq!(history.repetitions::<0>(), vec![HistoryHash::from(a), HistoryHash::from(b)]);
    assert_eq!(HashHistory::new().repetitions::<0>(), Vec::<HistoryHash>::new());
}

#[test]
fn moving_onto_a_check_square_gives_check() {
    let mut position = board("4k3/8/8/8/8/8/8/R3K3 w - - 0 1");
    assert!(position.state.check_squares_for(PieceType::Rook).squares_vec().contains(&Square::A8));
    let _ = position.make_move(quiet(Square::A1, Square::A8, PieceType::Rook));
    assert_eq!(position.checkers(), Square::A8.to_mask());

    let mut position = board("4k3/8/8/8/8/8/3N4/4K3 w - - 0 1");
    assert!(position.state.check_squares_for(PieceType::Knight).squares_vec().contains(&Square::F6));
    let _ = position.make_move(quiet(Square::D2, Square::F3, PieceType::Knight));
    assert_eq!(position.checkers(), BoardMask::empty());
}

#[test]
fn from_placement_builds_the_board_a_fen_string_describes() {
    let reference = board("4k3/8/8/8/8/8/8/K3R3 b - - 0 1");
    let mut squares: [Option<SidedPiece>; 64] = [None; 64];
    squares[0] = Some(SidedPiece::new(PieceType::King, Player::White));
    squares[4] = Some(SidedPiece::new(PieceType::Rook, Player::White));
    squares[60] = Some(SidedPiece::new(PieceType::King, Player::Black));
    let built = Board::from_placement(squares, Player::Black, reference.state.castles(), None, 0, 3).unwrap();
    assert_eq!(built.zobrist_key(), reference.zobrist_key());
    assert_eq!(built.checkers(), Square::E1.to_mask());
    assert_eq!(built.get_fen_string(), reference.get_fen_string());
    assert_eq!(built, reference);

    let mut no_black_king = squares;
    no_black_king[60] = None;
    assert_eq!(
        Board::from_placement(no_black_king, Player::White, reference.state.castles(), None, 0, 0),
        Err(IllegalPosition::MissingKing(Player::Black))
    );
    let mut no_white_king = squares;
    no_white_king[0] = None;
    assert_eq!(
        Board::from_placement(no_white_king, Player::White, reference.state.castles(), None, 0, 0),
        Err(IllegalPosition::MissingKing(Player::White))
    );
    assert_eq!(
        Board::from_placement([None; 64], Player::White, reference.state.castles(), None, 0, 0),
        Err(IllegalPosition::MissingKing(Player::White))
    );
}
