use thermite::castles::CastleRights;
use thermite::chess_move::ChessMove;
use thermite::move_type::MoveType;
use thermite::piece_type::{ByPieceType, PieceType};
use thermite::player::Player;
use thermite::position::hash_history::HashHistory;
use thermite::promotion_piece_type::PromotionPieceType;
use thermite::score::material::material_evaluation;
use thermite::score::{PositionEvaluation, SidedPieceCounts, MATE_PLIES};
use thermite::sided_piece::SidedPiece;
use thermite::square::Square;
use thermite::text::{parse_u16, str_chars, word_spans};
use thermite::uci::{
    ScoreBoundsType, SearchResult, UciCommand, UciInfoResponse, UciOption, UciOptionType, UciResponse, UciScore,
};
use thermite::zobrist::{HistoryHash, ZobristHash};

fn push(from: Square, to: Square) -> ChessMove {
    ChessMove { move_type: MoveType::Quiet { piece_type: PieceType::Pawn }, from, to }
}

#[test]
fn simple_responses_are_single_lines() {
    assert_eq!(UciResponse::ReadyOk.to_line(), "readyok\n");
    assert_eq!(UciResponse::UciOk.to_line(), "uciok\n");
    assert_eq!(UciResponse::EngineName("Thermite".to_string()).to_line(), "id name Thermite\n");
    assert_eq!(UciResponse::EngineAuthors("Someone".to_string()).to_line(), "id author Someone\n");
}

#[test]
fn option_responses_list_their_configuration() {
    let option = |name: &str, option: UciOptionType| UciResponse::Option(UciOption { name: name.to_string(), option });
    assert_eq!(option("Clear Hash", UciOptionType::Button).to_line(), "option name Clear Hash type button\n");
    assert_eq!(
        option("Ponder", UciOptionType::Check { default: true }).to_line(),
        "option name Ponder type check default true\n"
    );
    assert_eq!(
        option("Hash", UciOptionType::Spin { min: -1, max: 128, default: 16 }).to_line(),
        "option name Hash type spin min -1 max 128 default 16\n"
    );
    assert_eq!(
        option(
            "Style",
            UciOptionType::Combo { options: vec!["Solid".to_string(), "Risky".to_string()], default: "Solid".to_string() }
        )
        .to_line(),
        "option name Style type combo var Solid var Risky default Solid\n"
    );
    assert_eq!(
        option("Style", UciOptionType::Combo { options: vec!["a".to_string(), "b".to_string()], default: "a".to_string() }).to_line(),
        "option name Style type combo var a var b default a\n"
    );
    assert_eq!(
        option("Style", UciOptionType::Combo { options: vec![], default: "a".to_string() }).to_line(),
        "option name Style type combo default a\n"
    );
    assert_eq!(
        option("Book", UciOptionType::String { default: "book.bin".to_string() }).to_line(),
        "option name Book type string default book.bin\n"
    );
}

#[test]
fn best_move_responses_name_moves() {
    let best_move = push(Square::E2, Square::E4);
    assert_eq!(UciResponse::BestMove(SearchResult { best_move, ponder_move: None }).to_line(), "bestmove e2e4\n");
    let promotion =
        ChessMove { move_type: MoveType::Promotion { promotion: PromotionPieceType::Queen }, from: Square::A7, to: Square::A8 };
    assert_eq!(
        UciResponse::BestMove(SearchResult { best_move: promotion, ponder_move: Some(push(Square::E7, Square::E5)) })
            .to_line(),
        "bestmove a7a8q ponder e7e5\n"
    );
}

#[test]
fn commands_are_read_from_trimmed_lines() {
    assert_eq!(UciCommand::from_trimmed_line("isready"), Some(UciCommand::IsReady));
    assert_eq!(UciCommand::from_trimmed_line("quit"), Some(UciCommand::Quit));
    assert_eq!(UciCommand::from_trimmed_line("go infinite"), None);
    assert_eq!(UciCommand::from_trimmed_line(""), None);
}

#[test]
fn scores_show_mates_and_centipawns() {
    assert_eq!(PositionEvaluation::new_centipawns(-35).to_uci_string(), "-35cp");
    assert_eq!(PositionEvaluation::new_mating(3).to_uci_string(), "#3");
    assert_eq!(PositionEvaluation::new_mated(4).to_uci_string(), "#-4");
    assert_eq!(UciScore::new(PositionEvaluation::new_centipawns(12), ScoreBoundsType::Exact).to_uci_string(), "12cp");
    assert_eq!(
        UciScore::new(PositionEvaluation::new_centipawns(12), ScoreBoundsType::Upper).to_uci_string(),
        "upperbound 12cp"
    );
    assert_eq!(UciScore::new(PositionEvaluation::new_mating(1), ScoreBoundsType::Lower).to_uci_string(), "lowerbound #1");
}

#[test]
fn evaluations_are_ordered() {
    let max = PositionEvaluation::max();
    let min = PositionEvaluation::min();
    assert!(max > min);
    assert_eq!(max, PositionEvaluation::new_mating(0));
    assert!(PositionEvaluation::new_mating(0) > PositionEvaluation::new_mating(1));
    assert!(max > PositionEvaluation::new_mated(50));
    assert!(min < PositionEvaluation::new_mating(50));
    assert_eq!(min, PositionEvaluation::new_mated(0));
    assert!(PositionEvaluation::new_mated(1) < PositionEvaluation::new_mated(2));
    assert!(PositionEvaluation(2_147_483_647) > PositionEvaluation(-128_599));
    assert!(-PositionEvaluation::new_mating(5) == PositionEvaluation::new_mated(5));
    assert!(PositionEvaluation::new_mating(MATE_PLIES).is_mating());
    assert!(!PositionEvaluation::new_mating(MATE_PLIES + 1).is_mating());
    assert!(!PositionEvaluation::new_mated(MATE_PLIES).is_mating());
    assert!(PositionEvaluation::new_mated(MATE_PLIES).is_mated());
}

#[test]
fn info_fields_come_in_order() {
    let info = UciInfoResponse::new()
        .with_message("hello".to_string())
        .with_nodes_per_second(1000)
        .with_selective_search_depth(9, 7)
        .with_current_move(push(Square::D2, Square::D4), 0)
        .with_multi_principle_variation(250, vec![push(Square::D2, Square::D4), push(Square::D7, Square::D5)], 2)
        .with_nodes_searched(4242)
        .with_evaluation(UciScore::new(PositionEvaluation::new_centipawns(-20), ScoreBoundsType::Exact))
        .with_hash_table_usage(500)
        .with_cpu_usage(999)
        .with_table_base_hits(3);
    assert_eq!(
        info.to_uci_string(),
        " currmove d2d4 currmovenumber 1 depth 7 seldepth 9 time 250 nodes 4242 pv d2d4 d7d5 multipv 2 score -20cp \
         hashfull 500 cpuload 999 tbhits 3 nps 1000 string hello"
    );
    assert_eq!(UciInfoResponse::new().to_uci_string(), "");
    assert_eq!(UciInfoResponse::new().with_search_depth(12).to_uci_string(), " depth 12");
    assert_eq!(
        UciInfoResponse::new().with_principle_variation(5, vec![push(Square::E2, Square::E4)]).to_uci_string(),
        " time 5 pv e2e4"
    );
}

#[test]
fn history_push_then_pop_restores() {
    let mut history = HashHistory::new();
    let a = ZobristHash::new(0x1234);
    let b = ZobristHash::new(0xFF00_0000_0000_0012);
    history.push(a);
    let before = history.clone();
    history.push(b);
    history.pop();
    assert_eq!(history, before);
    history.pop();
    history.pop();
    assert_eq!(history, HashHistory::new());
}

#[test]
fn history_keeps_the_latest_hundred() {
    let mut history = HashHistory::new();
    history.push(ZobristHash::new(7));
    for value in 0..100u64 {
        history.push(ZobristHash::new((value << 8) | 9));
    }
    // The first hash has been pushed out, so the 7 pushed again is seen once
    history.push(ZobristHash::new(7));
    assert_eq!(history.repetitions::<2>(), vec![HistoryHash::new(9)]);
    assert_eq!(history.repetitions::<1>(), vec![HistoryHash::new(7), HistoryHash::new(9)]);
    history.clear();
    assert!(history.repetitions::<1>().is_empty());
}

#[test]
fn castle_rights_names_read_back() {
    for bits in 0..16u8 {
        let rights = CastleRights::try_from_bits(bits).unwrap();
        assert_eq!(CastleRights::parse(rights.to_uci_string().as_str()), Ok(rights));
    }
    assert_eq!(CastleRights::NoRights.to_uci_string(), "-");
    assert_eq!(CastleRights::try_from_bits(16).is_err(), true);
    assert!(CastleRights::parse("QK").is_err());
    assert!(CastleRights::parse("").is_err());
}

#[test]
fn square_names_read_back() {
    for square in Square::SQUARES {
        assert_eq!(Square::parse(square.to_uci_string().as_str()), Ok(square));
    }
    assert_eq!(Square::parse("E4"), Ok(Square::E4));
    assert!(Square::parse("i1").is_err());
    assert!(Square::parse("a9").is_err());
    assert!(Square::parse("a10").is_err());
}

#[test]
fn numbers_and_words_are_read() {
    let text = str_chars("  12 +7 65535 65536 x9 ");
    let spans = word_spans(text.as_slice());
    assert_eq!(spans.len(), 5);
    let read: Vec<Option<u16>> = spans.iter().map(|&(from, to)| parse_u16(text.as_slice(), from, to)).collect();
    assert_eq!(read, vec![Some(12), Some(7), Some(65535), None, None]);
}

#[test]
fn material_is_weighed_for_the_side_to_move() {
    let mut counts = SidedPieceCounts::empty();
    counts.add_piece(SidedPiece::new(PieceType::Queen, Player::White));
    counts.add_piece(SidedPiece::new(PieceType::Pawn, Player::White));
    counts.add_piece(SidedPiece::new(PieceType::Pawn, Player::White));
    counts.add_piece(SidedPiece::new(PieceType::Rook, Player::Black));
    counts.add_piece(SidedPiece::new(PieceType::King, Player::Black));
    let values = ByPieceType::new_with(
        PositionEvaluation(100),
        PositionEvaluation(300),
        PositionEvaluation(310),
        PositionEvaluation(500),
        PositionEvaluation(900),
        PositionEvaluation(0),
    );
    assert_eq!(material_evaluation(&counts, Player::White, &values), PositionEvaluation(600));
    assert_eq!(material_evaluation(&counts, Player::Black, &values), PositionEvaluation(-600));
}

#[test]
fn hash_writes_whole_big_endian_words() {
    let mut hash = ZobristHash::new(0);
    hash.write(&[0, 0, 0, 0, 0, 0, 0, 1, 0xFF, 0xFF, 0xFF, 0xFF, 0xFF, 0xFF, 0xFF, 0xFF, 5]);
    assert_eq!(hash.finish(), 0xFFFF_FFFF_FFFF_FFFE);
    let mut other = ZobristHash::default();
    other.write_u64(0x0102_0304_0506_0708);
    let mut same = ZobristHash::default();
    same.write(&[1, 2, 3, 4, 5, 6, 7, 8]);
    assert_eq!(other, same);
}
