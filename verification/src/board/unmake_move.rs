use vstd::prelude::*;

use crate::board::make_move::{holds, is_vacant, made_move, move_fits, move_keys, sided};
use crate::board::position_hash::state_keys;
use crate::board::zobrist::{spec_piece_square_key, spec_side_key};
use crate::board::{lemma_same_pieces, lemma_wf_boards_equal, Board, State};
use crate::castles::{spec_rook_to_square, CastleDirection};
use crate::chess_move::ChessMove;
use crate::move_type::MoveType;
use crate::piece_type::PieceType;
use crate::player::Player;
use crate::promotion_piece_type::{spec_promoted_piece, PromotionPieceType};
use crate::sided_piece::SidedPiece;
use crate::square::{lemma_square_index_range, sq_index, Square};

verus! {

/// The move can be taken back on the board: the player who moved (the one not to move) has the pieces where the
/// move put them, and the squares they return to, and the captured pieces return to, are free
pub open spec fn unmove_fits(board: Board, chess_move: ChessMove) -> bool {
    let mover = board.side_to_move.other();
    let from = chess_move.from;
    let to = chess_move.to;
    match chess_move.move_type {
        MoveType::Quiet { piece_type } => holds(board, to, piece_type, mover) && is_vacant(board, from),
        MoveType::DoublePawnPush { .. } => holds(board, to, PieceType::Pawn, mover) && is_vacant(board, from),
        MoveType::Capture { piece_type, .. } => holds(board, to, piece_type, mover) && is_vacant(board, from),
        MoveType::EnPassantCapture { captured_pawn_square } => {
            &&& holds(board, to, PieceType::Pawn, mover)
            &&& is_vacant(board, from)
            &&& is_vacant(board, captured_pawn_square)
            &&& captured_pawn_square != from
        },
        MoveType::Castle { castle_direction } => {
            let rook_from = board.state.castles.spec_rook_from(mover, castle_direction);
            let rook_to = spec_rook_to_square(mover, castle_direction);
            &&& holds(board, rook_to, PieceType::Rook, mover)
            &&& is_vacant(board, rook_from)
            &&& holds(board, to, PieceType::King, mover)
            &&& to != rook_to
            &&& (is_vacant(board, from) || from == rook_to)
            &&& from != rook_from
        },
        MoveType::Promotion { promotion } => holds(board, to, spec_promoted_piece(promotion), mover) && is_vacant(board, from),
        MoveType::PromotingCapture { promotion, .. } => holds(board, to, spec_promoted_piece(promotion), mover)
            && is_vacant(board, from),
    }
}

/// The pieces after the player who moved takes the move back
pub open spec fn unmoved_pieces(board: Board, chess_move: ChessMove) -> Seq<Option<SidedPiece>> {
    let mover = board.side_to_move.other();
    let pieces = board.pieces();
    let f = sq_index(chess_move.from);
    let t = sq_index(chess_move.to);
    match chess_move.move_type {
        MoveType::Quiet { piece_type } => pieces.update(t, None).update(f, Some(sided(piece_type, mover))),
        MoveType::DoublePawnPush { .. } => pieces.update(t, None).update(f, Some(sided(PieceType::Pawn, mover))),
        MoveType::Capture { piece_type, captured_piece } => pieces.update(t, None).update(f, Some(sided(piece_type, mover)))
            .update(t, Some(sided(captured_piece, mover.other()))),
        MoveType::EnPassantCapture { captured_pawn_square } => pieces.update(t, None).update(f, Some(sided(PieceType::Pawn, mover)))
            .update(sq_index(captured_pawn_square), Some(sided(PieceType::Pawn, mover.other()))),
        MoveType::Castle { castle_direction } => pieces.update(sq_index(spec_rook_to_square(mover, castle_direction)), None)
            .update(sq_index(board.state.castles.spec_rook_from(mover, castle_direction)), Some(sided(PieceType::Rook, mover)))
            .update(t, None).update(f, Some(sided(PieceType::King, mover))),
        MoveType::Promotion { promotion } => pieces.update(t, None).update(f, Some(sided(PieceType::Pawn, mover))),
        MoveType::PromotingCapture { promotion, captured_piece } => pieces.update(t, None).update(f, Some(sided(PieceType::Pawn, mover)))
            .update(t, Some(sided(captured_piece, mover.other()))),
    }
}

/// `restored` is `after` once the player who moved took the move back and the previous state was put back: the hash
/// is toggled by the keys of the state's features before, the side, the moved pieces and the keys of the previous
/// state's features
pub open spec fn unmade_move(after: Board, chess_move: ChessMove, previous_state: State, restored: Board) -> bool {
    &&& restored.wf()
    &&& restored.pieces() == unmoved_pieces(after, chess_move)
    &&& restored.side_to_move == after.side_to_move.other()
    &&& restored.halfmove_count == after.halfmove_count - 1
    &&& restored.state == previous_state
    &&& restored.hasher.value() == (((after.hasher.value() ^ state_keys(after.state)) ^ spec_side_key())
        ^ move_keys(after, after.side_to_move.other(), chess_move)) ^ state_keys(previous_state)
}

/// Toggles reordered and regrouped give the same hash
#[verifier::spinoff_prover]
proof fn lemma_toggle_orders(h: u64, a: u64, b: u64, c: u64, d: u64)
    ensures
        (h ^ a) ^ b == h ^ (b ^ a),
        ((h ^ a) ^ b) ^ c == h ^ ((c ^ b) ^ a),
        ((h ^ a) ^ b) ^ c == h ^ ((b ^ a) ^ c),
        ((h ^ a) ^ b) ^ c == h ^ ((b ^ c) ^ a),
        (((h ^ a) ^ b) ^ c) ^ d == h ^ (((d ^ c) ^ b) ^ a),
{
    assert((h ^ a) ^ b == h ^ (b ^ a) && ((h ^ a) ^ b) ^ c == h ^ ((c ^ b) ^ a) && ((h ^ a) ^ b) ^ c == h ^ ((b ^ a) ^ c)
        && ((h ^ a) ^ b) ^ c == h ^ ((b ^ c) ^ a) && (((h ^ a) ^ b) ^ c) ^ d == h ^ (((d ^ c) ^ b) ^ a)) by (bit_vector);
}

impl Board {
    /// Undo a capture
    #[verifier::spinoff_prover]
    fn undo_capture(&mut self, from: Square, to: Square, piece: SidedPiece, captured_piece: PieceType)
        requires
            old(self).wf(),
            old(self).pieces()[sq_index(to)] == Some(piece),
            is_vacant(*old(self), from),
        ensures
            final(self).wf(),
            final(self).pieces() == old(self).pieces().update(sq_index(to), None).update(sq_index(from), Some(piece))
                .update(sq_index(to), Some(sided(captured_piece, piece.player.other()))),
            final(self).hasher.value() == old(self).hasher.value() ^ (spec_piece_square_key(to, sided(captured_piece, piece.player.other()))
                ^ spec_piece_square_key(from, piece) ^ spec_piece_square_key(to, piece)),
            final(self).state == old(self).state,
            final(self).side_to_move == old(self).side_to_move,
            final(self).halfmove_count == old(self).halfmove_count,
    {
        let ghost h = self.hasher.value();
        self.move_piece(to, from, piece);
        self.add_piece(to, SidedPiece::new(captured_piece, piece.player.switch()));
        proof {
            lemma_toggle_orders(h, spec_piece_square_key(to, piece), spec_piece_square_key(from, piece),
                spec_piece_square_key(to, sided(captured_piece, piece.player.other())), 0);
        }
    }

    /// Undo an en-passant-capture
    #[verifier::spinoff_prover]
    fn undo_en_passant_capture(&mut self, from: Square, to: Square, captured_pawn_square: Square, player: Player)
        requires
            old(self).wf(),
            holds(*old(self), to, PieceType::Pawn, player),
            is_vacant(*old(self), from),
            is_vacant(*old(self), captured_pawn_square),
            captured_pawn_square != from,
        ensures
            final(self).wf(),
            final(self).pieces() == old(self).pieces().update(sq_index(to), None).update(sq_index(from), Some(sided(PieceType::Pawn, player)))
                .update(sq_index(captured_pawn_square), Some(sided(PieceType::Pawn, player.other()))),
            final(self).hasher.value() == old(self).hasher.value() ^ (spec_piece_square_key(from, sided(PieceType::Pawn, player))
                ^ spec_piece_square_key(to, sided(PieceType::Pawn, player))
                ^ spec_piece_square_key(captured_pawn_square, sided(PieceType::Pawn, player.other()))),
            final(self).state == old(self).state,
            final(self).side_to_move == old(self).side_to_move,
            final(self).halfmove_count == old(self).halfmove_count,
    {
        let ghost h = self.hasher.value();
        proof {
            lemma_square_index_range(captured_pawn_square);
            lemma_square_index_range(from);
        }
        self.move_piece(to, from, SidedPiece::new(PieceType::Pawn, player));
        self.add_piece(captured_pawn_square, SidedPiece::new(PieceType::Pawn, player.switch()));
        proof {
            lemma_toggle_orders(h, spec_piece_square_key(to, sided(PieceType::Pawn, player)),
                spec_piece_square_key(from, sided(PieceType::Pawn, player)),
                spec_piece_square_key(captured_pawn_square, sided(PieceType::Pawn, player.other())), 0);
        }
    }

    /// Undo a castle
    #[verifier::spinoff_prover]
    fn undo_castle(&mut self, king_from: Square, king_to: Square, castle_direction: CastleDirection, player: Player)
        requires
            old(self).wf(),
            holds(*old(self), spec_rook_to_square(player, castle_direction), PieceType::Rook, player),
            is_vacant(*old(self), old(self).state.castles.spec_rook_from(player, castle_direction)),
            holds(*old(self), king_to, PieceType::King, player),
            king_to != spec_rook_to_square(player, castle_direction),
            is_vacant(*old(self), king_from) || king_from == spec_rook_to_square(player, castle_direction),
            king_from != old(self).state.castles.spec_rook_from(player, castle_direction),
        ensures
            final(self).wf(),
            final(self).pieces() == old(self).pieces().update(sq_index(spec_rook_to_square(player, castle_direction)), None)
                .update(sq_index(old(self).state.castles.spec_rook_from(player, castle_direction)), Some(sided(PieceType::Rook, player)))
                .update(sq_index(king_to), None).update(sq_index(king_from), Some(sided(PieceType::King, player))),
            final(self).hasher.value() == old(self).hasher.value() ^ (spec_piece_square_key(king_from, sided(PieceType::King, player))
                ^ spec_piece_square_key(king_to, sided(PieceType::King, player))
                ^ spec_piece_square_key(old(self).state.castles.spec_rook_from(player, castle_direction), sided(PieceType::Rook, player))
                ^ spec_piece_square_key(spec_rook_to_square(player, castle_direction), sided(PieceType::Rook, player))),
            final(self).state == old(self).state,
            final(self).side_to_move == old(self).side_to_move,
            final(self).halfmove_count == old(self).halfmove_count,
    {
        let ghost h = self.hasher.value();
        let rook_from_square = self.state.castles.rook_from_square(player, castle_direction);
        let rook_to_square = self.state.castles.rook_to_square(player, castle_direction);
        proof {
            lemma_square_index_range(rook_from_square);
            lemma_square_index_range(rook_to_square);
            lemma_square_index_range(king_from);
            lemma_square_index_range(king_to);
        }
        self.move_piece(rook_to_square, rook_from_square, SidedPiece::new(PieceType::Rook, player));
        self.move_piece(king_to, king_from, SidedPiece::new(PieceType::King, player));
        proof {
            lemma_toggle_orders(h, spec_piece_square_key(rook_to_square, sided(PieceType::Rook, player)),
                spec_piece_square_key(rook_from_square, sided(PieceType::Rook, player)),
                spec_piece_square_key(king_to, sided(PieceType::King, player)),
                spec_piece_square_key(king_from, sided(PieceType::King, player)));
        }
    }

    /// Undo a pawn promotion
    #[verifier::spinoff_prover]
    fn undo_promotion(&mut self, from: Square, to: Square, promotion: PromotionPieceType, player: Player)
        requires
            old(self).wf(),
            holds(*old(self), to, spec_promoted_piece(promotion), player),
            is_vacant(*old(self), from),
        ensures
            final(self).wf(),
            final(self).pieces() == old(self).pieces().update(sq_index(to), None).update(sq_index(from), Some(sided(PieceType::Pawn, player))),
            final(self).hasher.value() == old(self).hasher.value() ^ (spec_piece_square_key(from, sided(PieceType::Pawn, player))
                ^ spec_piece_square_key(to, sided(spec_promoted_piece(promotion), player))),
            final(self).state == old(self).state,
            final(self).side_to_move == old(self).side_to_move,
            final(self).halfmove_count == old(self).halfmove_count,
    {
        let ghost h = self.hasher.value();
        proof {
            lemma_square_index_range(from);
            lemma_square_index_range(to);
        }
        self.remove_piece(to, SidedPiece::new(promotion.to_piece_type(), player));
        self.add_piece(from, SidedPiece::new(PieceType::Pawn, player));
        proof {
            lemma_toggle_orders(h, spec_piece_square_key(to, sided(spec_promoted_piece(promotion), player)),
                spec_piece_square_key(from, sided(PieceType::Pawn, player)), 0, 0);
        }
    }

    /// Undo a pawn promotion-capture
    #[verifier::spinoff_prover]
    fn undo_promoting_capture(&mut self, from: Square, to: Square, promotion: PromotionPieceType, captured_piece: PieceType, player: Player)
        requires
            old(self).wf(),
            holds(*old(self), to, spec_promoted_piece(promotion), player),
            is_vacant(*old(self), from),
        ensures
            final(self).wf(),
            final(self).pieces() == old(self).pieces().update(sq_index(to), None).update(sq_index(from), Some(sided(PieceType::Pawn, player)))
                .update(sq_index(to), Some(sided(captured_piece, player.other()))),
            final(self).hasher.value() == old(self).hasher.value() ^ (spec_piece_square_key(from, sided(PieceType::Pawn, player))
                ^ spec_piece_square_key(to, sided(captured_piece, player.other()))
                ^ spec_piece_square_key(to, sided(spec_promoted_piece(promotion), player))),
            final(self).state == old(self).state,
            final(self).side_to_move == old(self).side_to_move,
            final(self).halfmove_count == old(self).halfmove_count,
    {
        let ghost h = self.hasher.value();
        proof {
            lemma_square_index_range(from);
            lemma_square_index_range(to);
        }
        self.remove_piece(to, SidedPiece::new(promotion.to_piece_type(), player));
        self.add_piece(from, SidedPiece::new(PieceType::Pawn, player));
        self.add_piece(to, SidedPiece::new(captured_piece, player.switch()));
        proof {
            lemma_toggle_orders(h, spec_piece_square_key(to, sided(spec_promoted_piece(promotion), player)),
                spec_piece_square_key(from, sided(PieceType::Pawn, player)),
                spec_piece_square_key(to, sided(captured_piece, player.other())), 0);
        }
    }

    /// Undo a [chess move](ChessMove) on a board given the previous [`State`]
    #[verifier::spinoff_prover]
    #[verifier::rlimit(40)]
    pub fn unmake_move(&mut self, chess_move: ChessMove, previous_state: State)
        requires
            old(self).wf(),
            unmove_fits(*old(self), chess_move),
            old(self).halfmove_count > 0,
        ensures
            unmade_move(*old(self), chess_move, previous_state, *final(self)),
    {
        let ghost start = *self;
        // Take the keys of the en-passant square and castle rights out of the hash
        self.toggle_state_keys();
        // Switch to side that did the move
        self.switch_sides();
        let ghost switched = *self;
        proof {
            lemma_same_pieces(start, switched);
            lemma_square_index_range(chess_move.from);
            lemma_square_index_range(chess_move.to);
        }

        let side = self.side_to_move;
        let ChessMove { move_type, from, to } = chess_move;
        match move_type {
            MoveType::Quiet { piece_type } => {
                self.move_piece(to, from, SidedPiece::new(piece_type, side));
                proof {
                    lemma_toggle_orders(switched.hasher.value(), spec_piece_square_key(to, sided(piece_type, side)),
                        spec_piece_square_key(from, sided(piece_type, side)), 0, 0);
                }
            },
            MoveType::DoublePawnPush { .. } => {
                self.move_piece(to, from, SidedPiece::new(PieceType::Pawn, side));
                proof {
                    lemma_toggle_orders(switched.hasher.value(), spec_piece_square_key(to, sided(PieceType::Pawn, side)),
                        spec_piece_square_key(from, sided(PieceType::Pawn, side)), 0, 0);
                }
            },
            MoveType::Capture { piece_type, captured_piece } => self.undo_capture(from, to, SidedPiece::new(piece_type, side), captured_piece),
            MoveType::EnPassantCapture { captured_pawn_square } => self.undo_en_passant_capture(from, to, captured_pawn_square, side),
            MoveType::Castle { castle_direction } => self.undo_castle(from, to, castle_direction, side),
            MoveType::Promotion { promotion } => self.undo_promotion(from, to, promotion, side),
            MoveType::PromotingCapture { promotion, captured_piece } => self.undo_promoting_capture(from, to, promotion, captured_piece, side),
        }
        let ghost moved = *self;

        self.halfmove_count -= 1;
        // Reset state from previous move
        self.state = previous_state;
        let ghost reset = *self;
        // Put the keys of the previous en-passant square and castle rights back into the hash
        self.toggle_state_keys();
        proof {
            lemma_same_pieces(moved, reset);
            lemma_same_pieces(reset, *self);
        }
    }
}

/// A move made on a board can be taken back: afterwards the player who moved has the pieces where the move put
/// them, the squares to return to are free, and at least one half move was played
#[verifier::spinoff_prover]
pub proof fn lemma_made_move_can_be_unmade(before: Board, chess_move: ChessMove, after: Board)
    requires
        before.wf(),
        move_fits(before, chess_move),
        made_move(before, chess_move, after),
    ensures
        unmove_fits(after, chess_move),
        after.halfmove_count > 0,
{
    lemma_square_index_range(chess_move.from);
    lemma_square_index_range(chess_move.to);
    match chess_move.move_type {
        MoveType::EnPassantCapture { captured_pawn_square } => {
            lemma_square_index_range(captured_pawn_square);
        },
        MoveType::Castle { castle_direction } => {
            let side = before.side_to_move;
            lemma_square_index_range(before.state.castles.spec_rook_from(side, castle_direction));
            lemma_square_index_range(spec_rook_to_square(side, castle_direction));
            assert(after.state.castles.spec_rook_from(side, castle_direction) == before.state.castles.spec_rook_from(side, castle_direction));
        },
        _ => {},
    }
}

/// Taking back a move made on a board, with the state the move gave back, restores the board exactly:
/// its pieces, side to move, move count, state and hash
#[verifier::spinoff_prover]
#[verifier::rlimit(60)]
pub proof fn lemma_unmake_move_restores(before: Board, chess_move: ChessMove, after: Board, restored: Board)
    requires
        before.wf(),
        move_fits(before, chess_move),
        made_move(before, chess_move, after),
        unmade_move(after, chess_move, before.state, restored),
    ensures
        restored == before,
{
    let side = before.side_to_move;
    lemma_square_index_range(chess_move.from);
    lemma_square_index_range(chess_move.to);
    assert(after.side_to_move.other() == side);
    match chess_move.move_type {
        MoveType::EnPassantCapture { captured_pawn_square } => {
            lemma_square_index_range(captured_pawn_square);
        },
        MoveType::Castle { castle_direction } => {
            lemma_square_index_range(before.state.castles.spec_rook_from(side, castle_direction));
            lemma_square_index_range(spec_rook_to_square(side, castle_direction));
            assert(after.state.castles.spec_rook_from(side, castle_direction) == before.state.castles.spec_rook_from(side, castle_direction));
        },
        _ => {},
    }
    assert(restored.pieces() =~= before.pieces());
    assert(move_keys(after, side, chess_move) == move_keys(before, side, chess_move));
    let (h, k, s) = (before.hasher.value(), move_keys(before, side, chess_move), spec_side_key());
    let (a, b) = (state_keys(before.state), state_keys(after.state));
    assert((((((((h ^ a) ^ k) ^ s) ^ b) ^ b) ^ s) ^ k) ^ a == h) by (bit_vector);
    lemma_wf_boards_equal(restored, before);
}

} // verus!
