//! A piece moved onto one of the state's check squares gives check
use vstd::prelude::*;

use crate::bitboard::symmetry::{
    free_square, lemma_attack_on_ray, lemma_ray_clear_of_own_square, lemma_slide_extra_blocker, lemma_between_on_ray,
    lemma_clear_ray_attack, lemma_empty_board_ray, lemma_first_occupied, lemma_on_ray_between,
    lemma_ray_geometry, lemma_ray_on_line, lemma_rays_apart, ray_square, lemma_cardinal_symmetric, lemma_knight_symmetric, lemma_ordinal_symmetric, lemma_pawn_symmetric, lemma_sliding_extra_blocker,
    lemma_sliding_fewer_blockers,
};
use crate::bitboard::{
    cardinal_attacked, king_distance, lemma_bit_ops, lemma_mask_ext, on_line, pseudo_attacked, slide_attacked, strictly_between, Direction,
};
use crate::board::checks::{
    in_the_way, in_the_way_count, is_sniper, has_lone_blocker, spec_blocker, attacks_king_from, attacks_square, lemma_check_squares_attack_king, move_gen_masks_match, promotion_attacked, spec_checker,
    spec_gives_check, spec_is_direct_check, spec_is_discovery, without,
};
use crate::board::lowest_square;
use crate::bitboard::BoardMask;
use crate::chess_move::promotion_of;
use crate::promotion_piece_type::{spec_promoted_piece, PromotionPieceType};
use crate::square::{lemma_index_square_at, square_at, Square};
use crate::board::make_move::{made_move, move_fits, sided};
use crate::board::Board;
use crate::chess_move::ChessMove;
use crate::move_type::MoveType;
use crate::piece_type::{NonPawnPieceType, PieceType};
use crate::player::Player;
use crate::square::{lemma_square_index_range, sq_index};

verus! {

/// The type of the piece a move carries from its square to its target unchanged, without capturing by the way: the
/// moved piece of a quiet move, a capture or a double pawn push
pub open spec fn carried_piece(chess_move: ChessMove) -> Option<PieceType> {
    match chess_move.move_type {
        MoveType::Quiet { piece_type } => Some(piece_type),
        MoveType::Capture { piece_type, .. } => Some(piece_type),
        MoveType::DoublePawnPush { .. } => Some(PieceType::Pawn),
        _ => None,
    }
}

/// Boards whose squares hold a side's king alike have the same king square for that side
proof fn lemma_same_king_square(a: Board, b: Board, side: Player)
    requires
        a.wf(),
        b.wf(),
        forall|i: int| 0 <= i < 64 ==> (#[trigger] a.pieces()[i] == Some(sided(PieceType::King, side))) == (b.pieces()[i] == Some(
            sided(PieceType::King, side),
        )),
    ensures
        a.spec_king_square(side) == b.spec_king_square(side),
{
    assert forall|i: int| 0 <= i < 64 implies a.spec_king_mask(side).has(i) == b.spec_king_mask(side).has(i) by {
        a.lemma_wf_encodes(i);
        b.lemma_wf_encodes(i);
        lemma_bit_ops(a.piece_masks.at(PieceType::King).0, a.side_masks.at(side).0, i);
        lemma_bit_ops(b.piece_masks.at(PieceType::King).0, b.side_masks.at(side).0, i);
        assert(a.pieces()[i] == Some(sided(PieceType::King, side)) || a.pieces()[i] != Some(sided(PieceType::King, side)));
        match side {
            Player::White => {},
            Player::Black => {},
        }
    }
    lemma_mask_ext(a.spec_king_mask(side), b.spec_king_mask(side));
}

/// A quiet move, capture or double pawn push whose piece lands on one of the state's check squares for its type gives
/// check: afterwards the moved piece attacks the defending king
#[verifier::spinoff_prover]
#[verifier::rlimit(40)]
pub proof fn lemma_direct_check_gives_check(before: Board, chess_move: ChessMove, after: Board)
    requires
        before.wf(),
        move_fits(before, chess_move),
        made_move(before, chess_move, after),
        move_gen_masks_match(before),
        carried_piece(chess_move) matches Some(piece_type) && piece_type != PieceType::King && spec_is_direct_check(
            before,
            piece_type,
            chess_move.to,
        ),
    ensures
        spec_checker(after, before.side_to_move, sq_index(chess_move.to)),
{
    let piece_type = carried_piece(chess_move)->Some_0;
    let mover = before.side_to_move;
    let defending = mover.other();
    let (f, t) = (sq_index(chess_move.from), sq_index(chess_move.to));
    lemma_square_index_range(chess_move.from);
    lemma_square_index_range(chess_move.to);
    lemma_check_squares_attack_king(before, piece_type, t);
    assert(attacks_king_from(before, defending, piece_type, t));
    let king = before.spec_king_square(defending)->Some_0;
    let k = sq_index(king);
    lemma_square_index_range(king);

    // The defending king stays where it is
    assert forall|i: int| 0 <= i < 64 implies (#[trigger] before.pieces()[i] == Some(sided(PieceType::King, defending)))
        == (after.pieces()[i] == Some(sided(PieceType::King, defending))) by {
        if i != f && i != t {
            assert(after.pieces()[i] == before.pieces()[i]);
        }
    }
    lemma_same_king_square(before, after, defending);

    // The moved piece is on its target in the masks
    after.lemma_wf_encodes(t);
    assert(after.pieces()[t] == Some(sided(piece_type, mover)));

    // Fewer squares block sliders than before, besides the target itself
    let (occupied_before, occupied_after) = (before.spec_occupied(), after.spec_occupied());
    assert forall|x: int| 0 <= x < 64 && #[trigger] occupied_after.has(x) implies occupied_before.has(x) || x == t by {
        before.lemma_wf_encodes(x);
        after.lemma_wf_encodes(x);
        lemma_bit_ops(before.side_masks.at(Player::White).0, before.side_masks.at(Player::Black).0, x);
        lemma_bit_ops(after.side_masks.at(Player::White).0, after.side_masks.at(Player::Black).0, x);
        if x != f && x != t {
            assert(after.pieces()[x] == before.pieces()[x]);
        }
    }
    lemma_sliding_fewer_blockers(t, k, occupied_before, occupied_after);
    lemma_pawn_symmetric(t, k, mover);
    lemma_knight_symmetric(t, k);
    lemma_ordinal_symmetric(t, k, occupied_after);
    lemma_cardinal_symmetric(t, k, occupied_after);
    match mover {
        Player::White => {},
        Player::Black => {},
    }
}

/// A side has at most one king on the board
pub open spec fn one_king(board: Board, side: Player) -> bool {
    forall|i: int, j: int|
        0 <= i < 64 && 0 <= j < 64 && #[trigger] board.pieces()[i] == Some(sided(PieceType::King, side)) && #[trigger] board.pieces()[j]
            == Some(sided(PieceType::King, side)) ==> i == j
}

/// The move captures a king
pub open spec fn captures_king(chess_move: ChessMove) -> bool {
    match chess_move.move_type {
        MoveType::Capture { captured_piece, .. } => captured_piece == PieceType::King,
        MoveType::PromotingCapture { captured_piece, .. } => captured_piece == PieceType::King,
        _ => false,
    }
}

/// The lowest square of a mask is in the mask
proof fn lemma_lowest_square_in_mask(mask: BoardMask)
    ensures
        lowest_square(mask) matches Some(square) ==> mask.has(sq_index(square)),
        (exists|i: int| #[trigger] mask.has(i)) ==> lowest_square(mask) is Some,
{
    if exists|i: int| #[trigger] mask.has(i) {
        let c = choose|i: int| #[trigger] mask.has(i) && forall|j: int| 0 <= j < i ==> !mask.has(j);
        let w = choose|i: int| #[trigger] mask.has(i);
        assert(exists|i: int| #[trigger] mask.has(i) && forall|j: int| 0 <= j < i ==> !mask.has(j)) by {
            lemma_least_in_mask(mask, w);
        }
        lemma_index_square_at(c);
        assert(lowest_square(mask) == Some(square_at(c)));
    }
}

/// A mask holding a square holds a lowest one
proof fn lemma_least_in_mask(mask: BoardMask, w: int)
    requires
        mask.has(w),
    ensures
        exists|i: int| #[trigger] mask.has(i) && forall|j: int| 0 <= j < i ==> !mask.has(j),
    decreases w,
{
    if exists|j: int| 0 <= j < w && mask.has(j) {
        let j = choose|j: int| 0 <= j < w && mask.has(j);
        lemma_least_in_mask(mask, j);
    } else {
        assert(mask.has(w) && forall|j: int| 0 <= j < w ==> !mask.has(j));
    }
}

/// The promoted piece attacks board index `k` from `to` with some occupancy exactly when it does with another that
/// differs only on `to`
proof fn lemma_promotion_attack_occupancy(promotion: PromotionPieceType, to: Square, k: int, a: BoardMask, b: BoardMask)
    requires
        0 <= k < 64,
        forall|x: int| 0 <= x < 64 && #[trigger] a.has(x) ==> b.has(x) || x == sq_index(to),
        forall|x: int| 0 <= x < 64 && #[trigger] b.has(x) ==> a.has(x) || x == sq_index(to),
    ensures
        promotion_attacked(promotion, to, a, k) == promotion_attacked(promotion, to, b, k),
{
    lemma_square_index_range(to);
    lemma_sliding_fewer_blockers(sq_index(to), k, a, b);
    lemma_sliding_fewer_blockers(sq_index(to), k, b, a);
}

/// A promoted piece on `to` attacks the defending king exactly when, on the board after the move, it is one of the
/// pieces giving check
proof fn lemma_promotion_checker(before: Board, chess_move: ChessMove, after: Board, promotion: PromotionPieceType)
    requires
        before.wf(),
        move_fits(before, chess_move),
        made_move(before, chess_move, after),
        promotion_of(chess_move.move_type) == Some(promotion),
        !captures_king(chess_move),
    ensures
        after.spec_king_square(before.side_to_move.other()) == before.spec_king_square(before.side_to_move.other()),
        before.spec_king_square(before.side_to_move.other()) matches Some(king) ==> {
            &&& before.spec_king_mask(before.side_to_move.other()).has(sq_index(king))
            &&& spec_checker(after, before.side_to_move, sq_index(chess_move.to)) == promotion_attacked(
                promotion,
                chess_move.to,
                without(before.spec_occupied(), chess_move.from),
                sq_index(king),
            )
        },
        before.spec_king_square(before.side_to_move.other()) is None ==> !spec_checker(after, before.side_to_move, sq_index(chess_move.to)),
{
    let mover = before.side_to_move;
    let defending = mover.other();
    let (f, t) = (sq_index(chess_move.from), sq_index(chess_move.to));
    lemma_square_index_range(chess_move.from);
    lemma_square_index_range(chess_move.to);
    assert(f != t);
    assert forall|i: int| 0 <= i < 64 implies (#[trigger] before.pieces()[i] == Some(sided(PieceType::King, defending)))
        == (after.pieces()[i] == Some(sided(PieceType::King, defending))) by {
        if i != f && i != t {
            assert(after.pieces()[i] == before.pieces()[i]);
        }
    }
    lemma_same_king_square(before, after, defending);
    lemma_lowest_square_in_mask(before.spec_king_mask(defending));
    let promoted = spec_promoted_piece(promotion);
    assert(after.pieces()[t] == Some(sided(promoted, mover)));
    after.lemma_wf_encodes(t);
    before.lemma_wf_encodes(f);
    let occupied_after = after.spec_occupied();
    let occupied_moved = without(before.spec_occupied(), chess_move.from);
    assert forall|x: int| 0 <= x < 64 implies occupied_after.has(x) == (occupied_moved.has(x) || x == t) by {
        before.lemma_wf_encodes(x);
        after.lemma_wf_encodes(x);
        lemma_bit_ops(before.side_masks.at(Player::White).0, before.side_masks.at(Player::Black).0, x);
        lemma_bit_ops(after.side_masks.at(Player::White).0, after.side_masks.at(Player::Black).0, x);
        lemma_bit_ops(before.spec_occupied().0, BoardMask::single(f).0, x);
        crate::bitboard::lemma_single_bit(f, x);
        if x != f && x != t {
            assert(after.pieces()[x] == before.pieces()[x]);
        }
    }
    if let Some(king) = before.spec_king_square(defending) {
        let k = sq_index(king);
        lemma_square_index_range(king);
        lemma_promotion_attack_occupancy(promotion, chess_move.to, k, occupied_after, occupied_moved);
        lemma_knight_symmetric(t, k);
        lemma_ordinal_symmetric(t, k, occupied_after);
        lemma_cardinal_symmetric(t, k, occupied_after);
        assert(spec_checker(after, mover, t) == attacks_square(after, king, occupied_after, t));
        match mover {
            Player::White => {},
            Player::Black => {},
        }
    }
}

/// A promotion, capturing or not, gives check when the promoted piece attacks the defending king once the move is made;
/// and when a promotion is judged to give check on a board with one defending king, either the promoted piece attacks
/// that king or moving the pawn uncovered a check
#[verifier::spinoff_prover]
pub proof fn lemma_promotion_gives_check(before: Board, chess_move: ChessMove, after: Board)
    requires
        before.wf(),
        move_fits(before, chess_move),
        made_move(before, chess_move, after),
        promotion_of(chess_move.move_type) is Some,
        !captures_king(chess_move),
    ensures
        spec_checker(after, before.side_to_move, sq_index(chess_move.to)) ==> spec_gives_check(before, chess_move),
        one_king(before, before.side_to_move.other()) && spec_gives_check(before, chess_move) ==> spec_checker(
            after,
            before.side_to_move,
            sq_index(chess_move.to),
        ) || spec_is_discovery(before, before.side_to_move.other(), chess_move.from, chess_move.to),
{
    let promotion = promotion_of(chess_move.move_type)->Some_0;
    let defending = before.side_to_move.other();
    lemma_promotion_checker(before, chess_move, after, promotion);
    let mask = before.spec_king_mask(defending);
    let occupied_moved = without(before.spec_occupied(), chess_move.from);
    if let Some(king) = before.spec_king_square(defending) {
        let k = sq_index(king);
        if spec_checker(after, before.side_to_move, sq_index(chess_move.to)) {
            assert(mask.has(k) && promotion_attacked(promotion, chess_move.to, occupied_moved, k));
        }
        if one_king(before, defending) && spec_gives_check(before, chess_move)
            && !spec_is_discovery(before, defending, chess_move.from, chess_move.to) {
            let i = choose|i: int| 0 <= i < 64 && #[trigger] mask.has(i) && promotion_attacked(promotion, chess_move.to, occupied_moved, i);
            before.lemma_wf_encodes(i);
            before.lemma_wf_encodes(k);
            lemma_bit_ops(before.piece_masks.at(PieceType::King).0, before.side_masks.at(defending).0, i);
            lemma_bit_ops(before.piece_masks.at(PieceType::King).0, before.side_masks.at(defending).0, k);
            match defending {
                Player::White => {},
                Player::Black => {},
            }
            assert(before.pieces()[i] == Some(sided(PieceType::King, defending)));
            assert(before.pieces()[k] == Some(sided(PieceType::King, defending)));
            assert(i == k);
        }
    } else {
        if spec_gives_check(before, chess_move) && !spec_is_discovery(before, defending, chess_move.from, chess_move.to) {
            let i = choose|i: int| 0 <= i < 64 && #[trigger] mask.has(i) && promotion_attacked(promotion, chess_move.to, occupied_moved, i);
            assert(mask.has(i));
        }
    }
}

/// No piece of the side to move attacks the other side's king: the side not to move is not in check
pub open spec fn gives_no_check(board: Board) -> bool {
    forall|i: int| 0 <= i < 64 ==> !#[trigger] spec_checker(board, board.side_to_move, i)
}

/// On a board where the side not to move is not in check, a quiet move, capture or double pawn push of a piece other
/// than a king whose moved piece attacks the defending king once the move is made is judged to give check
#[verifier::spinoff_prover]
#[verifier::rlimit(40)]
pub proof fn lemma_moved_piece_check_is_found(before: Board, chess_move: ChessMove, after: Board)
    requires
        before.wf(),
        move_fits(before, chess_move),
        made_move(before, chess_move, after),
        move_gen_masks_match(before),
        gives_no_check(before),
        carried_piece(chess_move) matches Some(piece_type) && piece_type != PieceType::King,
        spec_checker(after, before.side_to_move, sq_index(chess_move.to)),
    ensures
        spec_gives_check(before, chess_move),
{
    let piece_type = carried_piece(chess_move)->Some_0;
    let mover = before.side_to_move;
    let defending = mover.other();
    let (f, t) = (sq_index(chess_move.from), sq_index(chess_move.to));
    lemma_square_index_range(chess_move.from);
    lemma_square_index_range(chess_move.to);
    assert forall|i: int| 0 <= i < 64 implies (#[trigger] before.pieces()[i] == Some(sided(PieceType::King, defending)))
        == (after.pieces()[i] == Some(sided(PieceType::King, defending))) by {
        if i != f && i != t {
            assert(after.pieces()[i] == before.pieces()[i]);
        }
    }
    lemma_same_king_square(before, after, defending);
    let king = before.spec_king_square(defending)->Some_0;
    let k = sq_index(king);
    lemma_square_index_range(king);
    after.lemma_wf_encodes(t);
    before.lemma_wf_encodes(f);
    assert(after.pieces()[t] == Some(sided(piece_type, mover)));
    assert(before.pieces()[f] == Some(sided(piece_type, mover)));
    let (occupied_before, occupied_after) = (before.spec_occupied(), after.spec_occupied());
    assert forall|x: int| 0 <= x < 64 && #[trigger] occupied_before.has(x) implies occupied_after.has(x) || x == f by {
        before.lemma_wf_encodes(x);
        after.lemma_wf_encodes(x);
        lemma_bit_ops(before.side_masks.at(Player::White).0, before.side_masks.at(Player::Black).0, x);
        lemma_bit_ops(after.side_masks.at(Player::White).0, after.side_masks.at(Player::Black).0, x);
        if x != f && x != t {
            assert(after.pieces()[x] == before.pieces()[x]);
        }
    }
    lemma_sliding_extra_blocker(k, t, occupied_after, occupied_before, f);
    lemma_pawn_symmetric(t, k, mover);
    lemma_knight_symmetric(t, k);
    lemma_ordinal_symmetric(t, k, occupied_after);
    lemma_cardinal_symmetric(t, k, occupied_after);
    lemma_ordinal_symmetric(t, k, occupied_before);
    lemma_cardinal_symmetric(t, k, occupied_before);
    lemma_ordinal_symmetric(f, k, occupied_before);
    lemma_cardinal_symmetric(f, k, occupied_before);
    assert(!spec_checker(before, mover, f));
    lemma_check_squares_attack_king(before, piece_type, t);
    match mover {
        Player::White => {},
        Player::Black => {},
    }
    assert(attacks_king_from(before, defending, piece_type, t));
}

/// Some piece of `mover` attacks the other side's king
pub open spec fn in_check_by(board: Board, mover: Player) -> bool {
    exists|i: int| 0 <= i < 64 && #[trigger] spec_checker(board, mover, i)
}

/// The defending side's pieces are the same on the board before and after a move that captures none of its pieces
/// other than on `captured`; the defending king stays put
proof fn lemma_defending_king_stays(before: Board, chess_move: ChessMove, after: Board)
    requires
        before.wf(),
        move_fits(before, chess_move),
        made_move(before, chess_move, after),
        !captures_king(chess_move),
    ensures
        after.spec_king_square(before.side_to_move.other()) == before.spec_king_square(before.side_to_move.other()),
{
    let defending = before.side_to_move.other();
    lemma_square_index_range(chess_move.from);
    lemma_square_index_range(chess_move.to);
    match chess_move.move_type {
        MoveType::EnPassantCapture { captured_pawn_square } => {
            lemma_square_index_range(captured_pawn_square);
        },
        MoveType::Castle { castle_direction } => {
            lemma_square_index_range(before.state.castles.spec_rook_from(before.side_to_move, castle_direction));
            lemma_square_index_range(crate::castles::spec_rook_to_square(before.side_to_move, castle_direction));
        },
        _ => {},
    }
    assert forall|i: int| 0 <= i < 64 implies (#[trigger] before.pieces()[i] == Some(sided(PieceType::King, defending)))
        == (after.pieces()[i] == Some(sided(PieceType::King, defending))) by {
    }
    lemma_same_king_square(before, after, defending);
}

/// An en-passant capture judged to give check does: afterwards a piece of the side that moved attacks the defending
/// king, or moving the pawn uncovered a check
#[verifier::spinoff_prover]
#[verifier::rlimit(40)]
pub proof fn lemma_en_passant_check_is_check(before: Board, chess_move: ChessMove, after: Board)
    requires
        before.wf(),
        move_fits(before, chess_move),
        made_move(before, chess_move, after),
        move_gen_masks_match(before),
        chess_move.move_type is EnPassantCapture,
        spec_gives_check(before, chess_move),
    ensures
        in_check_by(after, before.side_to_move) || spec_is_discovery(before, before.side_to_move.other(), chess_move.from, chess_move.to),
{
    let captured = chess_move.move_type->captured_pawn_square;
    let mover = before.side_to_move;
    let defending = mover.other();
    let (f, t, c) = (sq_index(chess_move.from), sq_index(chess_move.to), sq_index(captured));
    lemma_square_index_range(chess_move.from);
    lemma_square_index_range(chess_move.to);
    lemma_square_index_range(captured);
    lemma_defending_king_stays(before, chess_move, after);
    if !spec_is_discovery(before, defending, chess_move.from, chess_move.to) {
        let king = before.spec_king_square(defending)->Some_0;
        let k = sq_index(king);
        lemma_square_index_range(king);
        let occupied = before.spec_occupied();
        let moved = BoardMask(without(without(occupied, chess_move.from), captured).0 | BoardMask::single(t).0);
        let occupied_after = after.spec_occupied();
        before.lemma_wf_encodes(f);
        before.lemma_wf_encodes(c);
        before.lemma_wf_encodes(t);
        assert forall|x: int| 0 <= x < 64 implies moved.has(x) == occupied_after.has(x) by {
            before.lemma_wf_encodes(x);
            after.lemma_wf_encodes(x);
            lemma_bit_ops(before.side_masks.at(Player::White).0, before.side_masks.at(Player::Black).0, x);
            lemma_bit_ops(after.side_masks.at(Player::White).0, after.side_masks.at(Player::Black).0, x);
            lemma_bit_ops(occupied.0, BoardMask::single(f).0, x);
            lemma_bit_ops(without(occupied, chess_move.from).0, BoardMask::single(c).0, x);
            lemma_bit_ops(without(without(occupied, chess_move.from), captured).0, BoardMask::single(t).0, x);
            crate::bitboard::lemma_single_bit(f, x);
            crate::bitboard::lemma_single_bit(c, x);
            crate::bitboard::lemma_single_bit(t, x);
        }
        lemma_mask_ext(moved, occupied_after);
        if spec_is_direct_check(before, PieceType::Pawn, chess_move.to) {
            lemma_check_squares_attack_king(before, PieceType::Pawn, t);
            lemma_pawn_symmetric(t, k, mover);
            after.lemma_wf_encodes(t);
            match mover {
                Player::White => {},
                Player::Black => {},
            }
            assert(spec_checker(after, mover, t));
        } else {
            let i = choose|i: int| 0 <= i < 64 && #[trigger] before.spec_side_mask(mover).has(i) && {
                ||| (before.spec_piece_mask(PieceType::Queen).has(i) || before.spec_piece_mask(PieceType::Rook).has(i))
                    && crate::bitboard::sliding_piece_attacked(crate::piece_type::SlidingPieceType::Rook, king, moved, i)
                ||| (before.spec_piece_mask(PieceType::Queen).has(i) || before.spec_piece_mask(PieceType::Bishop).has(i))
                    && crate::bitboard::sliding_piece_attacked(crate::piece_type::SlidingPieceType::Bishop, king, moved, i)
            };
            before.lemma_wf_encodes(i);
            after.lemma_wf_encodes(i);
            assert(i != f && i != t && i != c);
            assert(after.pieces()[i] == before.pieces()[i]);
            match mover {
                Player::White => {},
                Player::Black => {},
            }
            assert(spec_checker(after, mover, i));
        }
    }
}

/// A castle judged to give check does, on a board with one defending king: afterwards the castled rook attacks that
/// king
#[verifier::spinoff_prover]
#[verifier::rlimit(40)]
pub proof fn lemma_castle_check_is_check(before: Board, chess_move: ChessMove, after: Board)
    requires
        before.wf(),
        move_fits(before, chess_move),
        made_move(before, chess_move, after),
        chess_move.move_type is Castle,
        one_king(before, before.side_to_move.other()),
        spec_gives_check(before, chess_move),
    ensures
        spec_checker(
            after,
            before.side_to_move,
            sq_index(crate::castles::spec_rook_to_square(before.side_to_move, chess_move.move_type->castle_direction)),
        ),
{
    let direction = chess_move.move_type->castle_direction;
    let mover = before.side_to_move;
    let defending = mover.other();
    let rook_from = before.state.castles.spec_rook_from(mover, direction);
    let rook_to = crate::castles::spec_rook_to_square(mover, direction);
    let (f, t, rf, rt) = (sq_index(chess_move.from), sq_index(chess_move.to), sq_index(rook_from), sq_index(rook_to));
    lemma_square_index_range(chess_move.from);
    lemma_square_index_range(chess_move.to);
    lemma_square_index_range(rook_from);
    lemma_square_index_range(rook_to);
    lemma_defending_king_stays(before, chess_move, after);
    let mask = before.spec_king_mask(defending);
    let occupied = before.spec_occupied();
    let moved = without(without(occupied, chess_move.from), chess_move.to);
    let i = choose|i: int| 0 <= i < 64 && #[trigger] mask.has(i)
        && crate::bitboard::sliding_piece_attacked(crate::piece_type::SlidingPieceType::Rook, rook_to, moved, i);
    lemma_lowest_square_in_mask(mask);
    let king = before.spec_king_square(defending)->Some_0;
    let k = sq_index(king);
    lemma_square_index_range(king);
    before.lemma_wf_encodes(i);
    before.lemma_wf_encodes(k);
    lemma_bit_ops(before.piece_masks.at(PieceType::King).0, before.side_masks.at(defending).0, i);
    lemma_bit_ops(before.piece_masks.at(PieceType::King).0, before.side_masks.at(defending).0, k);
    match defending {
        Player::White => {},
        Player::Black => {},
    }
    assert(i == k);
    let occupied_after = after.spec_occupied();
    before.lemma_wf_encodes(f);
    before.lemma_wf_encodes(t);
    assert forall|x: int| 0 <= x < 64 && #[trigger] occupied_after.has(x) implies moved.has(x) || x == rt by {
        before.lemma_wf_encodes(x);
        after.lemma_wf_encodes(x);
        lemma_bit_ops(before.side_masks.at(Player::White).0, before.side_masks.at(Player::Black).0, x);
        lemma_bit_ops(after.side_masks.at(Player::White).0, after.side_masks.at(Player::Black).0, x);
        lemma_bit_ops(occupied.0, BoardMask::single(f).0, x);
        lemma_bit_ops(without(occupied, chess_move.from).0, BoardMask::single(t).0, x);
        crate::bitboard::lemma_single_bit(f, x);
        crate::bitboard::lemma_single_bit(t, x);
    }
    lemma_sliding_fewer_blockers(rt, k, moved, occupied_after);
    lemma_cardinal_symmetric(rt, k, occupied_after);
    after.lemma_wf_encodes(rt);
    assert(after.pieces()[rt] == Some(sided(PieceType::Rook, mover)));
    match mover {
        Player::White => {},
        Player::Black => {},
    }
}

/// A quiet move, capture or double pawn push of a piece other than a king judged to give check does: afterwards a piece
/// of the side that moved attacks the defending king, or moving the piece uncovered a check
pub proof fn lemma_move_check_is_check(before: Board, chess_move: ChessMove, after: Board)
    requires
        before.wf(),
        move_fits(before, chess_move),
        made_move(before, chess_move, after),
        move_gen_masks_match(before),
        carried_piece(chess_move) matches Some(piece_type) && piece_type != PieceType::King,
        spec_gives_check(before, chess_move),
    ensures
        in_check_by(after, before.side_to_move) || spec_is_discovery(before, before.side_to_move.other(), chess_move.from, chess_move.to),
{
    let piece_type = carried_piece(chess_move)->Some_0;
    if spec_is_direct_check(before, piece_type, chess_move.to) {
        lemma_direct_check_gives_check(before, chess_move, after);
        assert(spec_checker(after, before.side_to_move, sq_index(chess_move.to)));
    }
}

/// A square holding a piece in the way of a sniper makes the count of pieces in the way past it positive
proof fn lemma_in_the_way_counted(board: Board, side: Player, king: Square, q: int, i: int, n: int)
    requires
        0 <= i < n,
        in_the_way(board, side, king, q, i),
    ensures
        in_the_way_count(board, side, king, q, n) >= 1,
    decreases n,
{
    if i < n - 1 {
        lemma_in_the_way_counted(board, side, king, q, i, n - 1);
    }
}

/// With a lone piece in the way of a sniper, no other square holds a piece in its way
proof fn lemma_lone_in_the_way(board: Board, side: Player, king: Square, q: int, f: int, i: int, n: int)
    requires
        0 <= f < n,
        0 <= i < n,
        n <= 64,
        f != i,
        in_the_way(board, side, king, q, f),
        in_the_way(board, side, king, q, i),
    ensures
        in_the_way_count(board, side, king, q, n) >= 2,
    decreases n,
{
    if f == n - 1 {
        lemma_in_the_way_counted(board, side, king, q, i, n - 1);
    } else if i == n - 1 {
        lemma_in_the_way_counted(board, side, king, q, f, n - 1);
    } else {
        lemma_lone_in_the_way(board, side, king, q, f, i, n - 1);
    }
}

/// The move changes only its start and target squares
pub open spec fn moves_two_squares(chess_move: ChessMove) -> bool {
    match chess_move.move_type {
        MoveType::EnPassantCapture { .. } => false,
        MoveType::Castle { .. } => false,
        _ => true,
    }
}

/// A move judged to uncover a check does give check: when the moved piece was the lone piece between the defending king
/// and a sniper of the side to move, and it leaves that line, afterwards a piece of the side that moved attacks the
/// defending king
#[verifier::spinoff_prover]
#[verifier::rlimit(60)]
pub proof fn lemma_discovery_is_check(before: Board, chess_move: ChessMove, after: Board)
    requires
        before.wf(),
        move_fits(before, chess_move),
        made_move(before, chess_move, after),
        move_gen_masks_match(before),
        !captures_king(chess_move),
        moves_two_squares(chess_move),
        spec_is_discovery(before, before.side_to_move.other(), chess_move.from, chess_move.to),
    ensures
        in_check_by(after, before.side_to_move),
{
    let mover = before.side_to_move;
    let defending = mover.other();
    let (f, t) = (sq_index(chess_move.from), sq_index(chess_move.to));
    lemma_square_index_range(chess_move.from);
    lemma_square_index_range(chess_move.to);
    lemma_defending_king_stays(before, chess_move, after);
    let king = before.spec_king_square(defending)->Some_0;
    let k = sq_index(king);
    lemma_square_index_range(king);
    assert(before.state.blockers_for.at(defending).has(f));
    assert(spec_blocker(before, defending, f));
    let q = choose|q: int| 0 <= q < 64 && is_sniper(before, defending, king, q) && has_lone_blocker(before, defending, king, q)
        && #[trigger] in_the_way(before, defending, king, q, f);
    assert(f != q);
    let straight = (before.spec_piece_mask(PieceType::Rook).has(q) || before.spec_piece_mask(PieceType::Queen).has(q))
        && pseudo_attacked(NonPawnPieceType::Rook, king, q);
    let (direction, n) = lemma_empty_board_ray(k, q, straight);
    lemma_between_on_ray(k, direction, n, f);
    let jf = king_distance(k, f);
    let occupied_after = after.spec_occupied();
    after.lemma_wf_encodes(f);
    before.lemma_wf_encodes(q);
    after.lemma_wf_encodes(q);
    // The target square is off the ray, since it is off the line through the start square and the king
    assert forall|jt: int| 1 <= jt && #[trigger] ray_square(k, direction, jt) == Some(t) implies false by {
        if jt != jf {
            lemma_ray_on_line(k, direction, jf, jt);
        }
    }
    assert(q != t) by {
        if q == t {
            assert(ray_square(k, direction, n) == Some(t));
        }
    }
    assert(after.pieces()[q] == before.pieces()[q]);
    lemma_bit_ops(after.side_masks.at(Player::White).0, after.side_masks.at(Player::Black).0, q);
    let j = lemma_first_occupied(k, direction, 1, n, occupied_after);
    let s = ray_square(k, direction, j)->Some_0;
    lemma_ray_geometry(k, direction, j);
    assert(s != f) by {
        lemma_bit_ops(after.side_masks.at(Player::White).0, after.side_masks.at(Player::Black).0, f);
    }
    assert(s != t);
    after.lemma_wf_encodes(s);
    before.lemma_wf_encodes(s);
    assert(after.pieces()[s] == before.pieces()[s]);
    lemma_bit_ops(after.side_masks.at(Player::White).0, after.side_masks.at(Player::Black).0, s);
    lemma_bit_ops(before.side_masks.at(Player::White).0, before.side_masks.at(Player::Black).0, s);
    if j < n {
        lemma_on_ray_between(k, direction, j, n);
        if in_the_way(before, defending, king, q, s) {
            lemma_lone_in_the_way(before, defending, king, q, f, s, 64);
        }
        assert(is_sniper(before, defending, king, s));
    }
    assert(is_sniper(before, defending, king, s));
    // The sniper on `s` attacks along the ray's kind of line
    if straight {
        if (before.spec_piece_mask(PieceType::Bishop).has(s) || before.spec_piece_mask(PieceType::Queen).has(s))
            && pseudo_attacked(NonPawnPieceType::Bishop, king, s) && !(before.spec_piece_mask(PieceType::Rook).has(s)
            || before.spec_piece_mask(PieceType::Queen).has(s)) {
            let (other, m) = lemma_empty_board_ray(k, s, false);
            lemma_rays_apart(k, direction, other, j, m);
        }
        if !pseudo_attacked(NonPawnPieceType::Rook, king, s) && (before.spec_piece_mask(PieceType::Queen).has(s)) {
            let (other, m) = lemma_empty_board_ray(k, s, false);
            lemma_rays_apart(k, direction, other, j, m);
        }
    } else {
        if (before.spec_piece_mask(PieceType::Rook).has(s) || before.spec_piece_mask(PieceType::Queen).has(s))
            && pseudo_attacked(NonPawnPieceType::Rook, king, s) && !(before.spec_piece_mask(PieceType::Bishop).has(s)
            || before.spec_piece_mask(PieceType::Queen).has(s)) {
            let (other, m) = lemma_empty_board_ray(k, s, true);
            lemma_rays_apart(k, other, direction, m, j);
        }
        if !pseudo_attacked(NonPawnPieceType::Bishop, king, s) && (before.spec_piece_mask(PieceType::Queen).has(s)) {
            let (other, m) = lemma_empty_board_ray(k, s, true);
            lemma_rays_apart(k, other, direction, m, j);
        }
    }
    lemma_clear_ray_attack(k, direction, j, occupied_after);
    match direction {
        Direction::North => {},
        Direction::South => {},
        Direction::East => {},
        Direction::West => {},
        Direction::NorthEast => {},
        Direction::NorthWest => {},
        Direction::SouthEast => {},
        Direction::SouthWest => {},
    }
    match mover {
        Player::White => {},
        Player::Black => {},
    }
    assert(spec_checker(after, mover, s));
}

/// A move judged to give check does give check: afterwards some piece of the side that moved attacks the defending
/// king. Stated for boards whose state holds no check squares for a king and whose defending side has one king, for
/// moves capturing no king, leaving aside en-passant captures judged to uncover a check
#[verifier::spinoff_prover]
pub proof fn lemma_gives_check_is_check(before: Board, chess_move: ChessMove, after: Board)
    requires
        before.wf(),
        move_fits(before, chess_move),
        made_move(before, chess_move, after),
        move_gen_masks_match(before),
        !captures_king(chess_move),
        one_king(before, before.side_to_move.other()),
        before.state.check_squares.at(PieceType::King).0 == 0,
        !(chess_move.move_type is EnPassantCapture && spec_is_discovery(
            before,
            before.side_to_move.other(),
            chess_move.from,
            chess_move.to,
        )),
        spec_gives_check(before, chess_move),
    ensures
        in_check_by(after, before.side_to_move),
{
    let discovery = spec_is_discovery(before, before.side_to_move.other(), chess_move.from, chess_move.to);
    lemma_square_index_range(chess_move.to);
    match chess_move.move_type {
        MoveType::Castle { .. } => {
            lemma_castle_check_is_check(before, chess_move, after);
            lemma_square_index_range(crate::castles::spec_rook_to_square(before.side_to_move, chess_move.move_type->castle_direction));
        },
        MoveType::EnPassantCapture { .. } => {
            lemma_en_passant_check_is_check(before, chess_move, after);
        },
        MoveType::Promotion { .. } | MoveType::PromotingCapture { .. } => {
            lemma_promotion_gives_check(before, chess_move, after);
            if discovery {
                lemma_discovery_is_check(before, chess_move, after);
            } else {
                assert(spec_checker(after, before.side_to_move, sq_index(chess_move.to)));
            }
        },
        _ => {
            if discovery {
                lemma_discovery_is_check(before, chess_move, after);
            } else {
                lemma_bit_ops(0, 0, sq_index(chess_move.to));
                lemma_move_check_is_check(before, chess_move, after);
            }
        },
    }
}

/// When exactly one square holds a piece in the way of a sniper, the count of pieces in its way is one
proof fn lemma_count_only(board: Board, side: Player, king: Square, q: int, f: int, n: int)
    requires
        0 <= f < 64,
        0 <= n <= 64,
        forall|i: int| 0 <= i < 64 ==> #[trigger] in_the_way(board, side, king, q, i) == (i == f),
    ensures
        in_the_way_count(board, side, king, q, n) == if f < n { 1int } else { 0int },
    decreases n,
{
    if n > 0 {
        lemma_count_only(board, side, king, q, f, n - 1);
        assert(in_the_way(board, side, king, q, n - 1) == (n - 1 == f));
    }
}

/// The squares a two-square move leaves occupied before and after, and the king, stay as they were, except that the
/// start square empties
proof fn lemma_two_square_occupancy(before: Board, chess_move: ChessMove, after: Board)
    requires
        before.wf(),
        move_fits(before, chess_move),
        made_move(before, chess_move, after),
        !captures_king(chess_move),
        carried_piece(chess_move) is Some || promotion_of(chess_move.move_type) is Some,
    ensures
        forall|x: int| 0 <= x < 64 && #[trigger] before.spec_occupied().has(x) ==> after.spec_occupied().has(x) || x
            == sq_index(chess_move.from),
        forall|x: int| 0 <= x < 64 && x != sq_index(chess_move.from) && x != sq_index(chess_move.to) ==> #[trigger] after.pieces()[x]
            == before.pieces()[x],
        !after.spec_occupied().has(sq_index(chess_move.from)),
        after.spec_occupied().has(sq_index(chess_move.to)),
        before.spec_occupied().has(sq_index(chess_move.from)),
        sq_index(chess_move.from) != sq_index(chess_move.to),
        after.spec_king_square(before.side_to_move.other()) == before.spec_king_square(before.side_to_move.other()),
{
    let (f, t) = (sq_index(chess_move.from), sq_index(chess_move.to));
    lemma_square_index_range(chess_move.from);
    lemma_square_index_range(chess_move.to);
    lemma_defending_king_stays(before, chess_move, after);
    after.lemma_wf_encodes(f);
    before.lemma_wf_encodes(f);
    after.lemma_wf_encodes(t);
    lemma_bit_ops(after.side_masks.at(Player::White).0, after.side_masks.at(Player::Black).0, f);
    lemma_bit_ops(after.side_masks.at(Player::White).0, after.side_masks.at(Player::Black).0, t);
    lemma_bit_ops(before.side_masks.at(Player::White).0, before.side_masks.at(Player::Black).0, f);
    assert forall|x: int| 0 <= x < 64 && #[trigger] before.spec_occupied().has(x) implies after.spec_occupied().has(x) || x == f by {
        before.lemma_wf_encodes(x);
        after.lemma_wf_encodes(x);
        lemma_bit_ops(before.side_masks.at(Player::White).0, before.side_masks.at(Player::Black).0, x);
        lemma_bit_ops(after.side_masks.at(Player::White).0, after.side_masks.at(Player::Black).0, x);
        if x != f && x != t {
            assert(after.pieces()[x] == before.pieces()[x]);
        }
    }
}

/// The ray from the defending king along which a move opened an attack by the piece on `s`: the piece on the start
/// square was the first piece on it before, and `s` is the first after
#[verifier::spinoff_prover]
#[verifier::rlimit(60)]
proof fn lemma_opened_ray(before: Board, chess_move: ChessMove, after: Board, s: int) -> (res: (Direction, int, int))
    requires
        before.wf(),
        move_fits(before, chess_move),
        made_move(before, chess_move, after),
        gives_no_check(before),
        !captures_king(chess_move),
        carried_piece(chess_move) is Some || promotion_of(chess_move.move_type) is Some,
        0 <= s < 64,
        s != sq_index(chess_move.to),
        spec_checker(after, before.side_to_move, s),
    ensures
        ({
            let (direction, ns, nf) = res;
            let king = before.spec_king_square(before.side_to_move.other())->Some_0;
            let k = sq_index(king);
            &&& before.spec_king_square(before.side_to_move.other()) is Some
            &&& 1 <= nf < ns
            &&& ray_square(k, direction, ns) == Some(s)
            &&& ray_square(k, direction, nf) == Some(sq_index(chess_move.from))
            &&& forall|m: int| 1 <= m < ns ==> free_square(after.spec_occupied(), #[trigger] ray_square(k, direction, m))
            &&& forall|m: int| 1 <= m < nf ==> free_square(before.spec_occupied(), #[trigger] ray_square(k, direction, m))
            &&& before.spec_side_mask(before.side_to_move).has(s)
            &&& direction.is_cardinal() ==> before.spec_piece_mask(PieceType::Rook).has(s) || before.spec_piece_mask(PieceType::Queen).has(s)
            &&& !direction.is_cardinal() ==> before.spec_piece_mask(PieceType::Bishop).has(s) || before.spec_piece_mask(PieceType::Queen).has(s)
        }),
{
    let mover = before.side_to_move;
    let defending = mover.other();
    let (f, t) = (sq_index(chess_move.from), sq_index(chess_move.to));
    lemma_two_square_occupancy(before, chess_move, after);
    let king = before.spec_king_square(defending)->Some_0;
    let k = sq_index(king);
    lemma_square_index_range(king);
    let (occupied_before, occupied_after) = (before.spec_occupied(), after.spec_occupied());
    after.lemma_wf_encodes(s);
    before.lemma_wf_encodes(s);
    lemma_bit_ops(after.side_masks.at(Player::White).0, after.side_masks.at(Player::Black).0, s);
    assert(s != f);
    assert(after.pieces()[s] == before.pieces()[s]);
    assert(!spec_checker(before, mover, s));
    let lone = BoardMask::single(k);
    let straight = cardinal_attacked(lone, occupied_after, s) && !cardinal_attacked(lone, occupied_before, s)
        && (before.spec_piece_mask(PieceType::Rook).has(s) || before.spec_piece_mask(PieceType::Queen).has(s));
    match mover {
        Player::White => {},
        Player::Black => {},
    }
    let direction = if straight {
        if slide_attacked(lone, occupied_after, s, Direction::North) {
            Direction::North
        } else if slide_attacked(lone, occupied_after, s, Direction::South) {
            Direction::South
        } else if slide_attacked(lone, occupied_after, s, Direction::East) {
            Direction::East
        } else {
            Direction::West
        }
    } else {
        if slide_attacked(lone, occupied_after, s, Direction::NorthEast) {
            Direction::NorthEast
        } else if slide_attacked(lone, occupied_after, s, Direction::NorthWest) {
            Direction::NorthWest
        } else if slide_attacked(lone, occupied_after, s, Direction::SouthEast) {
            Direction::SouthEast
        } else {
            Direction::SouthWest
        }
    };
    assert(slide_attacked(lone, occupied_after, s, direction));
    assert(!slide_attacked(lone, occupied_before, s, direction));
    lemma_slide_extra_blocker(k, s, occupied_after, occupied_before, f, direction);
    let ns = lemma_attack_on_ray(k, s, occupied_after, direction);
    let nf = lemma_attack_on_ray(k, f, occupied_before, direction);
    lemma_bit_ops(before.side_masks.at(Player::White).0, before.side_masks.at(Player::Black).0, s);
    assert(nf < ns) by {
        if nf > ns {
            assert(free_square(occupied_before, ray_square(k, direction, ns)));
        }
        if nf == ns {
            assert(s == f);
        }
    }
    (direction, ns, nf)
}

/// On a board where the side not to move is not in check, the first piece along a ray from the defending king is no
/// sniper of the side to move
#[verifier::spinoff_prover]
#[verifier::rlimit(60)]
proof fn lemma_sniper_not_first(before: Board, king: Square, f: int, direction: Direction, nf: int)
    requires
        before.wf(),
        gives_no_check(before),
        before.spec_king_square(before.side_to_move.other()) == Some(king),
        1 <= nf,
        ray_square(sq_index(king), direction, nf) == Some(f),
        forall|m: int| 1 <= m < nf ==> free_square(before.spec_occupied(), #[trigger] ray_square(sq_index(king), direction, m)),
    ensures
        !is_sniper(before, before.side_to_move.other(), king, f),
{
    let mover = before.side_to_move;
    let defending = mover.other();
    let k = sq_index(king);
    lemma_square_index_range(king);
    lemma_ray_geometry(k, direction, nf);
    if is_sniper(before, defending, king, f) {
        let straight = direction.is_cardinal();
        if (before.spec_piece_mask(PieceType::Rook).has(f) || before.spec_piece_mask(PieceType::Queen).has(f))
            && pseudo_attacked(NonPawnPieceType::Rook, king, f) && !straight {
            let (other, m) = lemma_empty_board_ray(k, f, true);
            lemma_rays_apart(k, other, direction, m, nf);
        }
        if (before.spec_piece_mask(PieceType::Bishop).has(f) || before.spec_piece_mask(PieceType::Queen).has(f))
            && pseudo_attacked(NonPawnPieceType::Bishop, king, f) && straight {
            let (other, m) = lemma_empty_board_ray(k, f, false);
            lemma_rays_apart(k, direction, other, nf, m);
        }
        lemma_clear_ray_attack(k, direction, nf, before.spec_occupied());
        match direction {
            Direction::North => {},
            Direction::South => {},
            Direction::East => {},
            Direction::West => {},
            Direction::NorthEast => {},
            Direction::NorthWest => {},
            Direction::SouthEast => {},
            Direction::SouthWest => {},
        }
        match mover {
            Player::White => {},
            Player::Black => {},
        }
        assert(spec_checker(before, mover, f));
    }
}

/// A piece of the side to move `ns` steps along a ray from the defending king, of a kind that slides along such rays, is
/// a sniper against that king
proof fn lemma_ray_sniper(before: Board, king: Square, s: int, direction: Direction, ns: int)
    requires
        1 <= ns,
        ray_square(sq_index(king), direction, ns) == Some(s),
        before.spec_side_mask(before.side_to_move).has(s),
        direction.is_cardinal() ==> before.spec_piece_mask(PieceType::Rook).has(s) || before.spec_piece_mask(PieceType::Queen).has(s),
        !direction.is_cardinal() ==> before.spec_piece_mask(PieceType::Bishop).has(s) || before.spec_piece_mask(PieceType::Queen).has(s),
    ensures
        is_sniper(before, before.side_to_move.other(), king, s),
{
    let k = sq_index(king);
    lemma_square_index_range(king);
    let lone = BoardMask::single(k);
    lemma_ray_clear_of_own_square(k, direction, ns);
    lemma_clear_ray_attack(k, direction, ns, lone);
    assert(before.side_to_move.other().other() == before.side_to_move) by {
        match before.side_to_move {
            Player::White => {},
            Player::Black => {},
        }
    }
    match direction {
        Direction::North => {},
        Direction::South => {},
        Direction::East => {},
        Direction::West => {},
        Direction::NorthEast => {},
        Direction::NorthWest => {},
        Direction::SouthEast => {},
        Direction::SouthWest => {},
    }
}

/// Between the defending king and the sniper `ns` steps along a ray, whose squares before it the move cleared, only the
/// moved piece stood in the way
proof fn lemma_lone_opened_blocker(before: Board, after: Board, king: Square, s: int, f: int, direction: Direction, ns: int, nf: int)
    requires
        1 <= nf < ns,
        0 <= f < 64,
        ray_square(sq_index(king), direction, ns) == Some(s),
        ray_square(sq_index(king), direction, nf) == Some(f),
        forall|m: int| 1 <= m < ns ==> free_square(after.spec_occupied(), #[trigger] ray_square(sq_index(king), direction, m)),
        forall|x: int| 0 <= x < 64 && #[trigger] before.spec_occupied().has(x) ==> after.spec_occupied().has(x) || x == f,
        before.spec_occupied().has(f),
        is_sniper(before, before.side_to_move.other(), king, s),
        !is_sniper(before, before.side_to_move.other(), king, f),
        strictly_between(sq_index(king), s, f),
    ensures
        forall|i: int| 0 <= i < 64 ==> #[trigger] in_the_way(before, before.side_to_move.other(), king, s, i) == (i == f),
{
    let k = sq_index(king);
    lemma_square_index_range(king);
    assert forall|i: int| 0 <= i < 64 implies #[trigger] in_the_way(before, before.side_to_move.other(), king, s, i) == (i == f) by {
        if i != f && i != s && strictly_between(k, s, i) {
            lemma_between_on_ray(k, direction, ns, i);
            let j = king_distance(k, i);
            assert(free_square(after.spec_occupied(), ray_square(k, direction, j)));
        }
    }
}

/// On a board where the side not to move is not in check, a move that takes its piece off the line through its start
/// square and the defending king, after which another piece of the side that moved attacks the defending king, is
/// judged to give check: the check it uncovers is found
#[verifier::spinoff_prover]
#[verifier::rlimit(60)]
pub proof fn lemma_discovered_check_is_found(before: Board, chess_move: ChessMove, after: Board, s: int)
    requires
        before.wf(),
        move_fits(before, chess_move),
        made_move(before, chess_move, after),
        move_gen_masks_match(before),
        gives_no_check(before),
        !captures_king(chess_move),
        carried_piece(chess_move) is Some || promotion_of(chess_move.move_type) is Some,
        before.spec_king_square(before.side_to_move.other()) matches Some(king) ==> !on_line(
            sq_index(chess_move.from),
            sq_index(chess_move.to),
            sq_index(king),
        ),
        0 <= s < 64,
        s != sq_index(chess_move.to),
        spec_checker(after, before.side_to_move, s),
    ensures
        spec_gives_check(before, chess_move),
{
    let mover = before.side_to_move;
    let defending = mover.other();
    let f = sq_index(chess_move.from);
    let (direction, ns, nf) = lemma_opened_ray(before, chess_move, after, s);
    lemma_two_square_occupancy(before, chess_move, after);
    let king = before.spec_king_square(defending)->Some_0;
    let k = sq_index(king);
    lemma_square_index_range(king);
    lemma_on_ray_between(k, direction, nf, ns);
    lemma_ray_sniper(before, king, s, direction, ns);
    lemma_sniper_not_first(before, king, f, direction, nf);
    lemma_lone_opened_blocker(before, after, king, s, f, direction, ns, nf);
    lemma_count_only(before, defending, king, s, f, 64);
    assert(in_the_way(before, defending, king, s, f));
    assert(has_lone_blocker(before, defending, king, s));
    assert(spec_blocker(before, defending, f));
    assert(before.state.blockers_for.at(defending).has(f));
    assert(spec_is_discovery(before, defending, chess_move.from, chess_move.to));
}

/// A move that is not a king move, castle or en-passant capture
pub open spec fn plain_non_king_move(chess_move: ChessMove) -> bool {
    ||| carried_piece(chess_move) matches Some(piece_type) && piece_type != PieceType::King
    ||| promotion_of(chess_move.move_type) is Some
}

/// A check given by a move is found: on a board where the side not to move is not in check, a move of a piece other
/// than a king (castles and en-passant captures aside) that takes its piece off the line through its start square and
/// the defending king, after which some piece of the side that moved attacks the defending king, is judged to give check
pub proof fn lemma_check_is_found(before: Board, chess_move: ChessMove, after: Board)
    requires
        before.wf(),
        move_fits(before, chess_move),
        made_move(before, chess_move, after),
        move_gen_masks_match(before),
        gives_no_check(before),
        !captures_king(chess_move),
        plain_non_king_move(chess_move),
        before.spec_king_square(before.side_to_move.other()) matches Some(king) ==> !on_line(
            sq_index(chess_move.from),
            sq_index(chess_move.to),
            sq_index(king),
        ),
        in_check_by(after, before.side_to_move),
    ensures
        spec_gives_check(before, chess_move),
{
    let i = choose|i: int| 0 <= i < 64 && #[trigger] spec_checker(after, before.side_to_move, i);
    if i == sq_index(chess_move.to) {
        if promotion_of(chess_move.move_type) is Some {
            lemma_promotion_gives_check(before, chess_move, after);
        } else {
            lemma_moved_piece_check_is_found(before, chess_move, after);
        }
    } else {
        lemma_discovered_check_is_found(before, chess_move, after, i);
    }
}

/// The squares occupied after an en-passant capture are those the move's check test looks through: the start and
/// captured squares emptied and the target filled
proof fn lemma_en_passant_occupancy(before: Board, chess_move: ChessMove, after: Board)
    requires
        before.wf(),
        move_fits(before, chess_move),
        made_move(before, chess_move, after),
        chess_move.move_type is EnPassantCapture,
    ensures
        BoardMask(without(without(before.spec_occupied(), chess_move.from), chess_move.move_type->captured_pawn_square).0
            | BoardMask::single(sq_index(chess_move.to)).0) == after.spec_occupied(),
        forall|x: int| 0 <= x < 64 && x != sq_index(chess_move.from) && x != sq_index(chess_move.to) && x != sq_index(
            chess_move.move_type->captured_pawn_square,
        ) ==> #[trigger] after.pieces()[x] == before.pieces()[x],
        after.pieces()[sq_index(chess_move.from)] is None,
        after.pieces()[sq_index(chess_move.move_type->captured_pawn_square)] is None,
{
    let captured = chess_move.move_type->captured_pawn_square;
    let (f, t, c) = (sq_index(chess_move.from), sq_index(chess_move.to), sq_index(captured));
    lemma_square_index_range(chess_move.from);
    lemma_square_index_range(chess_move.to);
    lemma_square_index_range(captured);
    let occupied = before.spec_occupied();
    let moved = BoardMask(without(without(occupied, chess_move.from), captured).0 | BoardMask::single(t).0);
    let occupied_after = after.spec_occupied();
    before.lemma_wf_encodes(f);
    before.lemma_wf_encodes(c);
    before.lemma_wf_encodes(t);
    assert forall|x: int| 0 <= x < 64 implies moved.has(x) == occupied_after.has(x) by {
        before.lemma_wf_encodes(x);
        after.lemma_wf_encodes(x);
        lemma_bit_ops(before.side_masks.at(Player::White).0, before.side_masks.at(Player::Black).0, x);
        lemma_bit_ops(after.side_masks.at(Player::White).0, after.side_masks.at(Player::Black).0, x);
        lemma_bit_ops(occupied.0, BoardMask::single(f).0, x);
        lemma_bit_ops(without(occupied, chess_move.from).0, BoardMask::single(c).0, x);
        lemma_bit_ops(without(without(occupied, chess_move.from), captured).0, BoardMask::single(t).0, x);
        crate::bitboard::lemma_single_bit(f, x);
        crate::bitboard::lemma_single_bit(c, x);
        crate::bitboard::lemma_single_bit(t, x);
    }
    lemma_mask_ext(moved, occupied_after);
}

/// A check given by an en-passant capture is found: on a board where the side not to move is not in check, when after
/// the capture a piece of the side that moved attacks the defending king, the capture is judged to give check
#[verifier::spinoff_prover]
#[verifier::rlimit(40)]
pub proof fn lemma_en_passant_check_is_found(before: Board, chess_move: ChessMove, after: Board)
    requires
        before.wf(),
        move_fits(before, chess_move),
        made_move(before, chess_move, after),
        move_gen_masks_match(before),
        gives_no_check(before),
        chess_move.move_type is EnPassantCapture,
        in_check_by(after, before.side_to_move),
    ensures
        spec_gives_check(before, chess_move),
{
    let mover = before.side_to_move;
    let defending = mover.other();
    let captured = chess_move.move_type->captured_pawn_square;
    let (f, t, c) = (sq_index(chess_move.from), sq_index(chess_move.to), sq_index(captured));
    lemma_square_index_range(chess_move.from);
    lemma_square_index_range(chess_move.to);
    lemma_square_index_range(captured);
    lemma_defending_king_stays(before, chess_move, after);
    lemma_en_passant_occupancy(before, chess_move, after);
    let i = choose|i: int| 0 <= i < 64 && #[trigger] spec_checker(after, mover, i);
    let king = before.spec_king_square(defending)->Some_0;
    let k = sq_index(king);
    lemma_square_index_range(king);
    after.lemma_wf_encodes(i);
    before.lemma_wf_encodes(i);
    match mover {
        Player::White => {},
        Player::Black => {},
    }
    if i == t {
        lemma_check_squares_attack_king(before, PieceType::Pawn, t);
        lemma_pawn_symmetric(t, k, mover);
        assert(spec_is_direct_check(before, PieceType::Pawn, chess_move.to));
    } else {
        assert(i != f && i != c);
        assert(after.pieces()[i] == before.pieces()[i]);
        assert(!spec_checker(before, mover, i));
        assert(before.spec_side_mask(mover).has(i));
    }
}

} // verus!
