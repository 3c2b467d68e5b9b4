use vstd::prelude::*;

use crate::board::make_move::{holds, is_vacant, made_move, move_fits, move_keys, moved_pieces, sided};
use crate::board::make_move::castle_keys;
use crate::board::zobrist::{spec_en_passant_key, spec_piece_square_key, spec_side_key, EMPTY_ZOBRIST_KEY};
use crate::board::{Board, State};
use crate::castles::{lemma_rights_bits, rights_bits, CastleRights};
use crate::castles::spec_rook_to_square;
use crate::chess_move::ChessMove;
use crate::move_type::MoveType;
use crate::piece_type::PieceType;
use crate::player::Player;
use crate::promotion_piece_type::spec_promoted_piece;
use crate::sided_piece::SidedPiece;
use crate::square::{lemma_square_at_index, lemma_square_index_range, sq_index, square_at, Square};

verus! {

/// The key of what a square holds: its piece's key on that square, or nothing
pub open spec fn square_key(value: Option<SidedPiece>, i: int) -> u64 {
    match value {
        Some(piece) => spec_piece_square_key(square_at(i), piece),
        None => 0,
    }
}

/// The keys of the pieces on the first `n` squares, toggled together
pub open spec fn pieces_keys(pieces: Seq<Option<SidedPiece>>, n: int) -> u64
    decreases n,
{
    if n <= 0 {
        0
    } else {
        pieces_keys(pieces, n - 1) ^ square_key(pieces[n - 1], n - 1)
    }
}

/// The keys of a placement: the empty position's key, toggled by the key of every piece on its square, and by the
/// side key when black is to move
pub open spec fn placement_hash(pieces: Seq<Option<SidedPiece>>, side: Player) -> u64 {
    (EMPTY_ZOBRIST_KEY ^ pieces_keys(pieces, 64)) ^ if side == Player::Black { spec_side_key() } else { 0 }
}

/// The key of an en-passant square, or nothing when there is none
pub open spec fn en_passant_keys(square: Option<Square>) -> u64 {
    match square {
        Some(square) => spec_en_passant_key(square),
        None => 0,
    }
}

/// The keys of the hashed features of a state: its en-passant square and each castle ability it holds
pub open spec fn state_keys(state: State) -> u64 {
    en_passant_keys(state.en_passant_square) ^ castle_keys(rights_bits(state.castles.spec_rights()))
}

/// The Zobrist hash of a position: the keys of its placement and side to move, toggled by the keys of its
/// en-passant square and of its castle rights
pub open spec fn position_hash(pieces: Seq<Option<SidedPiece>>, side: Player, state: State) -> u64 {
    placement_hash(pieces, side) ^ state_keys(state)
}

impl Board {
    /// The incrementally kept hash is the hash of the board's position
    pub open spec fn hash_matches(&self) -> bool {
        self.hasher.value() == position_hash(self.pieces(), self.side_to_move, self.state)
    }
}

/// Exclusive-or is associative and commutative, zero toggles nothing and a key toggled twice cancels
proof fn lemma_xor_laws(a: u64, b: u64, c: u64)
    ensures
        (a ^ b) ^ c == (a ^ c) ^ b,
        (a ^ b) ^ c == a ^ (b ^ c),
        (a ^ b) ^ b == a,
        a ^ 0u64 == a,
        0u64 ^ a == a,
{
    assert({
        &&& (a ^ b) ^ c == (a ^ c) ^ b
        &&& (a ^ b) ^ c == a ^ (b ^ c)
        &&& (a ^ b) ^ b == a
        &&& a ^ 0u64 == a
        &&& 0u64 ^ a == a
    }) by (bit_vector);
}

/// A state without an en-passant square and without castle rights has no keys
pub proof fn lemma_initial_state_keys(state: State)
    requires
        state.en_passant_square is None,
        state.castles.spec_rights() == CastleRights::NoRights,
    ensures
        state_keys(state) == 0,
{
    lemma_rights_bits(CastleRights::NoRights, 0);
    assert(rights_bits(CastleRights::NoRights) == 0);
    lemma_xor_laws(0, 0, 0);
}

/// The exclusive-or rearrangements used when toggling keys
#[verifier::spinoff_prover]
proof fn lemma_xor_shapes(x: u64, a: u64, b: u64, c: u64, d: u64)
    ensures
        ((x ^ a) ^ a) ^ b == x ^ b,
        ((x ^ a) ^ b) ^ c == ((x ^ c) ^ a) ^ b,
        x ^ 0u64 == x,
        a ^ a == 0u64,
        0u64 ^ a == a,
        (x ^ a) ^ a == x,
{
    assert({
        &&& (x ^ a) ^ a == x
        &&& ((x ^ a) ^ a) ^ b == x ^ b
        &&& ((x ^ a) ^ b) ^ c == ((x ^ c) ^ a) ^ b
        &&& x ^ 0u64 == x
        &&& a ^ a == 0u64
        &&& 0u64 ^ a == a
    }) by (bit_vector);
}

/// The exclusive-or rearrangements of the keys toggled by a move
#[verifier::spinoff_prover]
proof fn lemma_move_xor_shapes(x: u64, a: u64, b: u64, c: u64, d: u64)
    ensures
        (((x ^ a) ^ 0u64) ^ 0u64) ^ b == x ^ (a ^ b),
        (((((x ^ c) ^ 0u64) ^ a) ^ 0u64) ^ 0u64) ^ b == x ^ ((c ^ a) ^ b),
        (((((x ^ a) ^ 0u64) ^ 0u64) ^ b) ^ c) ^ 0u64 == x ^ ((a ^ b) ^ c),
        (((((((x ^ a) ^ 0u64) ^ 0u64) ^ b) ^ c) ^ 0u64) ^ 0u64) ^ d == x ^ (((a ^ b) ^ c) ^ d),
        (((((x ^ a) ^ 0u64) ^ c) ^ 0u64) ^ 0u64) ^ b == x ^ ((a ^ c) ^ b),
        (((x ^ a) ^ b) ^ c) ^ d == (x ^ (a ^ c)) ^ (b ^ d),
{
    assert({
        &&& (((x ^ a) ^ 0u64) ^ 0u64) ^ b == x ^ (a ^ b)
        &&& (((((x ^ c) ^ 0u64) ^ a) ^ 0u64) ^ 0u64) ^ b == x ^ ((c ^ a) ^ b)
        &&& (((((x ^ a) ^ 0u64) ^ 0u64) ^ b) ^ c) ^ 0u64 == x ^ ((a ^ b) ^ c)
        &&& (((((((x ^ a) ^ 0u64) ^ 0u64) ^ b) ^ c) ^ 0u64) ^ 0u64) ^ d == x ^ (((a ^ b) ^ c) ^ d)
        &&& (((((x ^ a) ^ 0u64) ^ c) ^ 0u64) ^ 0u64) ^ b == x ^ ((a ^ c) ^ b)
        &&& (((x ^ a) ^ b) ^ c) ^ d == (x ^ (a ^ c)) ^ (b ^ d)
    }) by (bit_vector);
}

/// Changing what one square holds toggles out its old key and toggles in its new one
#[verifier::spinoff_prover]
pub proof fn lemma_pieces_keys_update(pieces: Seq<Option<SidedPiece>>, j: int, value: Option<SidedPiece>, n: int)
    requires
        0 <= j < pieces.len(),
        n <= pieces.len(),
    ensures
        j < n ==> pieces_keys(pieces.update(j, value), n) == (pieces_keys(pieces, n) ^ square_key(pieces[j], j)) ^ square_key(value, j),
        j >= n ==> pieces_keys(pieces.update(j, value), n) == pieces_keys(pieces, n),
    decreases n,
{
    if n > 0 {
        lemma_pieces_keys_update(pieces, j, value, n - 1);
        let x = pieces_keys(pieces, n - 1);
        let (a, b) = (square_key(pieces[j], j), square_key(value, j));
        if j == n - 1 {
            lemma_xor_shapes(x, a, b, 0, 0);
        } else if j < n - 1 {
            lemma_xor_shapes(x, a, b, square_key(pieces[n - 1], n - 1), 0);
        }
    }
}

/// An empty board has no piece keys
#[verifier::spinoff_prover]
pub proof fn lemma_pieces_keys_empty(n: int)
    requires
        n <= 64,
    ensures
        pieces_keys(Seq::new(64, |i: int| None::<SidedPiece>), n) == 0,
    decreases n,
{
    if n > 0 {
        lemma_pieces_keys_empty(n - 1);
        lemma_xor_shapes(0, 0, 0, 0, 0);
    }
}

/// Placing a piece on an empty square toggles in that piece's key
#[verifier::spinoff_prover]
pub proof fn lemma_pieces_keys_place(pieces: Seq<Option<SidedPiece>>, square: Square, piece: SidedPiece)
    requires
        pieces.len() == 64,
        pieces[sq_index(square)] is None,
    ensures
        pieces_keys(pieces.update(sq_index(square), Some(piece)), 64) == pieces_keys(pieces, 64) ^ spec_piece_square_key(square, piece),
{
    lemma_square_index_range(square);
    lemma_square_at_index(square);
    lemma_pieces_keys_update(pieces, sq_index(square), Some(piece), 64);
    lemma_xor_shapes(pieces_keys(pieces, 64), 0, 0, 0, 0);
}

/// The keys of the pieces after a move are the keys before, toggled by the keys the move toggles
#[verifier::spinoff_prover]
#[verifier::rlimit(40)]
proof fn lemma_moved_pieces_keys(before: Board, chess_move: ChessMove)
    requires
        before.wf(),
        move_fits(before, chess_move),
    ensures
        pieces_keys(moved_pieces(before, chess_move), 64)
            == pieces_keys(before.pieces(), 64) ^ move_keys(before, before.side_to_move, chess_move),
{
    let side = before.side_to_move;
    let p = before.pieces();
    let from = chess_move.from;
    let to = chess_move.to;
    let (f, t) = (sq_index(from), sq_index(to));
    lemma_square_index_range(from);
    lemma_square_index_range(to);
    lemma_square_at_index(from);
    lemma_square_at_index(to);
    let x = pieces_keys(p, 64);
    match chess_move.move_type {
        MoveType::Quiet { piece_type } => {
            let p1 = p.update(f, None);
            lemma_pieces_keys_update(p, f, None, 64);
            lemma_pieces_keys_update(p1, t, Some(sided(piece_type, side)), 64);
            lemma_move_xor_shapes(x, square_key(p[f], f), square_key(Some(sided(piece_type, side)), t), 0, 0);
        },
        MoveType::DoublePawnPush { .. } => {
            let p1 = p.update(f, None);
            lemma_pieces_keys_update(p, f, None, 64);
            lemma_pieces_keys_update(p1, t, Some(sided(PieceType::Pawn, side)), 64);
            lemma_move_xor_shapes(x, square_key(p[f], f), square_key(Some(sided(PieceType::Pawn, side)), t), 0, 0);
        },
        MoveType::Capture { piece_type, captured_piece } => {
            let p1 = p.update(t, None);
            let p2 = p1.update(f, None);
            lemma_pieces_keys_update(p, t, None, 64);
            lemma_pieces_keys_update(p1, f, None, 64);
            lemma_pieces_keys_update(p2, t, Some(sided(piece_type, side)), 64);
            lemma_move_xor_shapes(x, square_key(p[f], f), square_key(Some(sided(piece_type, side)), t), square_key(p[t], t), 0);
        },
        MoveType::EnPassantCapture { captured_pawn_square } => {
            let c = sq_index(captured_pawn_square);
            lemma_square_index_range(captured_pawn_square);
            lemma_square_at_index(captured_pawn_square);
            let p1 = p.update(f, None);
            let p2 = p1.update(t, Some(sided(PieceType::Pawn, side)));
            lemma_pieces_keys_update(p, f, None, 64);
            lemma_pieces_keys_update(p1, t, Some(sided(PieceType::Pawn, side)), 64);
            lemma_pieces_keys_update(p2, c, None, 64);
            lemma_move_xor_shapes(x, square_key(p[f], f), square_key(Some(sided(PieceType::Pawn, side)), t), square_key(p[c], c), 0);
        },
        MoveType::Castle { castle_direction } => {
            let rook_from = before.state.castles.spec_rook_from(side, castle_direction);
            let rook_to = spec_rook_to_square(side, castle_direction);
            let (rf, rt) = (sq_index(rook_from), sq_index(rook_to));
            lemma_square_index_range(rook_from);
            lemma_square_index_range(rook_to);
            lemma_square_at_index(rook_from);
            lemma_square_at_index(rook_to);
            let p1 = p.update(f, None);
            let p2 = p1.update(t, Some(sided(PieceType::King, side)));
            let p3 = p2.update(rf, None);
            lemma_pieces_keys_update(p, f, None, 64);
            lemma_pieces_keys_update(p1, t, Some(sided(PieceType::King, side)), 64);
            lemma_pieces_keys_update(p2, rf, None, 64);
            lemma_pieces_keys_update(p3, rt, Some(sided(PieceType::Rook, side)), 64);
            lemma_move_xor_shapes(x, square_key(p[f], f), square_key(Some(sided(PieceType::King, side)), t), square_key(p[rf], rf),
                square_key(Some(sided(PieceType::Rook, side)), rt));
        },
        MoveType::Promotion { promotion } => {
            let p1 = p.update(f, None);
            lemma_pieces_keys_update(p, f, None, 64);
            lemma_pieces_keys_update(p1, t, Some(sided(spec_promoted_piece(promotion), side)), 64);
            lemma_move_xor_shapes(x, square_key(p[f], f), square_key(Some(sided(spec_promoted_piece(promotion), side)), t), 0, 0);
        },
        MoveType::PromotingCapture { promotion, .. } => {
            let p1 = p.update(f, None);
            let p2 = p1.update(t, None);
            lemma_pieces_keys_update(p, f, None, 64);
            lemma_pieces_keys_update(p1, t, None, 64);
            lemma_pieces_keys_update(p2, t, Some(sided(spec_promoted_piece(promotion), side)), 64);
            lemma_move_xor_shapes(x, square_key(p[f], f), square_key(Some(sided(spec_promoted_piece(promotion), side)), t), square_key(p[t], t), 0);
        },
    }
}

/// Boards whose kept hashes are up to date, with the same pieces, side to move, en-passant square and castle rights,
/// have the same hash however they were reached
#[verifier::spinoff_prover]
pub proof fn lemma_transpositions_share_hash(a: Board, b: Board)
    requires
        a.hash_matches(),
        b.hash_matches(),
        a.pieces() == b.pieces(),
        a.side_to_move == b.side_to_move,
        a.state.en_passant_square == b.state.en_passant_square,
        a.state.castles.spec_rights() == b.state.castles.spec_rights(),
    ensures
        a.hasher.value() == b.hasher.value(),
{
}

/// Placing a piece on an empty square toggles its key into the placement keys
proof fn lemma_placement_place(pieces: Seq<Option<SidedPiece>>, side: Player, square: Square, piece: SidedPiece)
    requires
        pieces.len() == 64,
        pieces[sq_index(square)] is None,
    ensures
        placement_hash(pieces.update(sq_index(square), Some(piece)), side) == placement_hash(pieces, side)
            ^ spec_piece_square_key(square, piece),
{
    lemma_pieces_keys_place(pieces, square, piece);
    let s = if side == Player::Black { spec_side_key() } else { 0u64 };
    let (x, pk, k) = (EMPTY_ZOBRIST_KEY, pieces_keys(pieces, 64), spec_piece_square_key(square, piece));
    lemma_xor_laws(x, pk, k);
    lemma_xor_laws(x ^ pk, k, s);
}

/// Switching the side to move toggles the side key into the placement keys
proof fn lemma_placement_switch(pieces: Seq<Option<SidedPiece>>, side: Player)
    ensures
        placement_hash(pieces, side.other()) == placement_hash(pieces, side) ^ spec_side_key(),
{
    let x = EMPTY_ZOBRIST_KEY ^ pieces_keys(pieces, 64);
    lemma_xor_laws(x, spec_side_key(), 0);
}

/// Making a move keeps the incrementally kept hash equal to the hash of the position: the same position reached by
/// different moves has the same hash
#[verifier::spinoff_prover]
pub proof fn lemma_make_move_keeps_hash(before: Board, chess_move: ChessMove, after: Board)
    requires
        before.wf(),
        move_fits(before, chess_move),
        made_move(before, chess_move, after),
        before.hash_matches(),
    ensures
        after.hash_matches(),
{
    lemma_moved_pieces_keys(before, chess_move);
    let x = EMPTY_ZOBRIST_KEY;
    let pk = pieces_keys(before.pieces(), 64);
    let mk = move_keys(before, before.side_to_move, chess_move);
    let sk = spec_side_key();
    let s = if before.side_to_move == Player::Black { sk } else { 0u64 };
    let placed = placement_hash(before.pieces(), before.side_to_move);
    lemma_xor_laws(placed, state_keys(before.state), 0);
    assert(after.hasher.value() == (((((x ^ pk) ^ s) ^ mk) ^ sk) ^ state_keys(after.state)));
    lemma_move_xor_shapes(x, pk, s, mk, sk);
    lemma_xor_shapes(sk, sk, 0, 0, 0);
    assert(after.pieces() == moved_pieces(before, chess_move));
    assert(pieces_keys(after.pieces(), 64) == pk ^ mk);
}

/// Placing a piece on an empty square, toggling its key in, keeps the hash that of the position
#[verifier::spinoff_prover]
pub proof fn lemma_place_keeps_hash(before: Board, after: Board, square: Square, piece: SidedPiece)
    requires
        before.hash_matches(),
        before.pieces()[sq_index(square)] is None,
        after.pieces() == before.pieces().update(sq_index(square), Some(piece)),
        after.hasher.value() == before.hasher.value() ^ spec_piece_square_key(square, piece),
        after.side_to_move == before.side_to_move,
        after.state.en_passant_square == before.state.en_passant_square,
        after.state.castles.spec_rights() == before.state.castles.spec_rights(),
    ensures
        after.hash_matches(),
{
    lemma_placement_place(before.pieces(), before.side_to_move, square, piece);
    lemma_xor_laws(placement_hash(before.pieces(), before.side_to_move), state_keys(before.state), spec_piece_square_key(square, piece));
}

/// Switching the side to move, toggling the side key, keeps the hash that of the position
#[verifier::spinoff_prover]
pub proof fn lemma_switch_keeps_hash(before: Board, after: Board)
    requires
        before.hash_matches(),
        after.pieces() == before.pieces(),
        after.hasher.value() == before.hasher.value() ^ spec_side_key(),
        after.side_to_move == before.side_to_move.other(),
        after.state.en_passant_square == before.state.en_passant_square,
        after.state.castles.spec_rights() == before.state.castles.spec_rights(),
    ensures
        after.hash_matches(),
{
    lemma_placement_switch(before.pieces(), before.side_to_move);
    lemma_xor_laws(placement_hash(before.pieces(), before.side_to_move), state_keys(before.state), spec_side_key());
}

/// Toggling the keys of the state's features into a hash kept for the placement alone makes it the hash of the position
#[verifier::spinoff_prover]
pub(crate) proof fn lemma_state_keys_complete_hash(before: Board, after: Board)
    requires
        before.hasher.value() == placement_hash(before.pieces(), before.side_to_move),
        after.pieces() == before.pieces(),
        after.side_to_move == before.side_to_move,
        after.hasher.value() == before.hasher.value() ^ state_keys(after.state),
    ensures
        after.hash_matches(),
{
}

/// The empty board's hash is the empty position's key
#[verifier::spinoff_prover]
pub proof fn lemma_empty_hash(board: Board)
    requires
        board.pieces() == Seq::new(64, |i: int| None::<SidedPiece>),
        board.side_to_move == Player::White,
        board.hasher.value() == EMPTY_ZOBRIST_KEY,
        board.state.en_passant_square is None,
        board.state.castles.spec_rights() == CastleRights::NoRights,
    ensures
        board.hash_matches(),
{
    lemma_pieces_keys_empty(64);
    lemma_initial_state_keys(board.state);
    lemma_xor_laws(EMPTY_ZOBRIST_KEY, 0, 0);
}

} // verus!
