use vstd::prelude::*;

use crate::board::zobrist::spec_piece_square_key;
use crate::board::checks::{lemma_masks_frame, move_gen_masks_match, spec_checker};
use crate::board::position_hash::{en_passant_keys, placement_hash, state_keys};
use crate::board::zobrist::{lemma_toggle_grouping, lemma_toggle_zero, spec_castle_key, spec_en_passant_key, spec_side_key};
use crate::board::{lemma_same_pieces, same_castle_squares, Board, State};
use crate::chess_move::ChessMove;
use crate::move_type::MoveType;
use crate::castles::{back_rank, has_flag, lemma_castle_destinations, spec_rook_to_square, lemma_rights_bits, right_flag, rights_bits, spec_side_rights, CastleDirection, CastleRights, Castles};
use crate::piece_type::PieceType;
use crate::promotion_piece_type::{spec_promoted_piece, PromotionPieceType};
use crate::player::Player;
use crate::sided_piece::SidedPiece;
use crate::square::{index_file, index_rank, lemma_square_index_range, sq_index, Square};

verus! {

/// The castle flags of both directions for a side
pub open spec fn side_flags(side: Player) -> u8 {
    right_flag(side, true) | right_flag(side, false)
}

/// The castle rights left once a piece moves away from (or is captured on) `from`: moving a castling rook from its
/// starting square loses that side's right to castle towards it
pub open spec fn rook_move_rights(bits: u8, castles: Castles, from: Square, piece: SidedPiece) -> u8 {
    if piece.piece_type == PieceType::Rook && from == castles.spec_rook_from(piece.player, CastleDirection::KingSide) {
        bits & !right_flag(piece.player, true)
    } else if piece.piece_type == PieceType::Rook && from == castles.spec_rook_from(piece.player, CastleDirection::QueenSide) {
        bits & !right_flag(piece.player, false)
    } else {
        bits
    }
}

/// The castle rights left once a piece moves away from `from`: moving the king from its starting square loses
/// both of its side's rights
pub open spec fn king_move_rights(bits: u8, castles: Castles, from: Square, piece: SidedPiece) -> u8 {
    if piece.piece_type == PieceType::King && from == castles.spec_king_from(piece.player) && bits & side_flags(piece.player) != 0 {
        bits & !side_flags(piece.player)
    } else {
        bits
    }
}

/// The rights flags of the rights for one side, and of that side's king side or queen side only
#[verifier::spinoff_prover]
proof fn lemma_side_rights_bits(side: Player)
    ensures
        rights_bits(spec_side_rights(side)) == side_flags(side),
        rights_bits(spec_side_rights(side)) & rights_bits(CastleRights::BothKings) == right_flag(side, true),
        rights_bits(spec_side_rights(side)) & rights_bits(CastleRights::BothQueens) == right_flag(side, false),
{
    match side {
        Player::White => {
            assert(1u8 | 2u8 == 3u8 && 3u8 & 5u8 == 1u8 && 3u8 & 10u8 == 2u8) by (bit_vector);
        },
        Player::Black => {
            assert(4u8 | 8u8 == 12u8 && 12u8 & 5u8 == 4u8 && 12u8 & 10u8 == 8u8) by (bit_vector);
        },
    }
}

impl Board {
    /// Check if moved/captured piece was a castle rook, and invalidate castle rights if necessary
    #[verifier::spinoff_prover]
    fn invalidate_rook_castle_move(&mut self, from: Square, piece: SidedPiece)
        ensures
            rights_bits(final(self).state.castles.spec_rights())
                == rook_move_rights(rights_bits(old(self).state.castles.spec_rights()), old(self).state.castles, from, piece),
            same_castle_squares(final(self).state.castles, old(self).state.castles),
            *final(self) == (Board { state: State { castles: final(self).state.castles, ..old(self).state }, ..*old(self) }),
    {
        if piece.piece_type == PieceType::Rook {
            let king_rook_square = self.state.castles.rook_from_square(piece.player, CastleDirection::KingSide);
            let queen_rook_square = self.state.castles.rook_from_square(piece.player, CastleDirection::QueenSide);
            let side_rights = CastleRights::for_side(piece.player);
            proof {
                lemma_side_rights_bits(piece.player);
                lemma_rights_bits(side_rights, (rights_bits(side_rights) & 5u8) as int);
                lemma_rights_bits(side_rights, (rights_bits(side_rights) & 10u8) as int);
            }
            // Check if either rook is no longer on the target square and remove castle rights
            if from == king_rook_square && side_rights.can_castle(piece.player, true) {
                self.state.remove_castle_rights(side_rights & CastleRights::BothKings);
            } else if from == queen_rook_square && side_rights.can_castle(piece.player, false) {
                self.state.remove_castle_rights(side_rights & CastleRights::BothQueens);
            }
        }
    }

    /// Check if moved piece was a king, and invalidate castle rights if necessary
    #[verifier::spinoff_prover]
    fn invalidate_king_castle_move(&mut self, from: Square, piece: SidedPiece)
        ensures
            rights_bits(final(self).state.castles.spec_rights())
                == king_move_rights(rights_bits(old(self).state.castles.spec_rights()), old(self).state.castles, from, piece),
            same_castle_squares(final(self).state.castles, old(self).state.castles),
            *final(self) == (Board { state: State { castles: final(self).state.castles, ..old(self).state }, ..*old(self) }),
    {
        let full_side_castle_rights = CastleRights::for_side(piece.player);
        proof {
            lemma_side_rights_bits(piece.player);
            let bits = rights_bits(self.state.castles.spec_rights());
            lemma_rights_bits(self.state.castles.spec_rights(), (bits & side_flags(piece.player)) as int);
            assert(bits < 16 ==> bits & 3u8 < 16 && bits & 12u8 < 16) by (bit_vector);
        }
        // Check if the king moved from its starting square and remove castle rights
        if piece.piece_type == PieceType::King && from == self.state.castles.king_from_square(piece.player)
            && (*self.state.castles.as_ref() & full_side_castle_rights) != CastleRights::NoRights {
            self.state.remove_castle_rights(full_side_castle_rights);
        }
    }
}

/// A square holds a piece of a player
pub open spec fn holds(board: Board, square: Square, piece_type: PieceType, player: Player) -> bool {
    board.pieces()[sq_index(square)] == Some(SidedPiece { piece_type, player })
}

/// A square holds no piece
pub open spec fn is_vacant(board: Board, square: Square) -> bool {
    board.pieces()[sq_index(square)] is None
}

/// The sided piece of a type and player
pub open spec fn sided(piece_type: PieceType, player: Player) -> SidedPiece {
    SidedPiece { piece_type, player }
}

impl Board {
    /// Make a normal from-to move, that doesn't capture or promote or have any special state handling (ie. double-pawn-push)
    #[verifier::spinoff_prover]
    fn quiet_move(&mut self, from: Square, to: Square, piece: SidedPiece)
        requires
            old(self).wf(),
            old(self).pieces()[sq_index(from)] == Some(piece),
            is_vacant(*old(self), to),
        ensures
            final(self).wf(),
            final(self).pieces() == old(self).pieces().update(sq_index(from), None).update(sq_index(to), Some(piece)),
            final(self).hasher.value() == old(self).hasher.value() ^ (spec_piece_square_key(from, piece)
                ^ spec_piece_square_key(to, piece)),
            rights_bits(final(self).state.castles.spec_rights()) == king_move_rights(
                rook_move_rights(rights_bits(old(self).state.castles.spec_rights()), old(self).state.castles, from, piece),
                old(self).state.castles,
                from,
                piece,
            ),
            same_castle_squares(final(self).state.castles, old(self).state.castles),
            final(self).state == (State {
                castles: final(self).state.castles,
                halfmove_clock: if piece.piece_type == PieceType::Pawn { 0 } else { old(self).state.halfmove_clock },
                ..old(self).state
            }),
            final(self).side_to_move == old(self).side_to_move,
            final(self).halfmove_count == old(self).halfmove_count,
    {
        let ghost h = self.hasher.value();
        // Update pieces
        self.move_piece(from, to, piece);
        let ghost moved = *self;
        proof {
            lemma_toggle_grouping(h, spec_piece_square_key(from, piece), spec_piece_square_key(to, piece), 0, 0);
        }

        // A pawn push resets the half-move clock
        if piece.piece_type == PieceType::Pawn {
            self.state.clear_halfmove_clock();
        }

        // Check if piece that moved was a castle rook or king to invalidate rights
        self.invalidate_rook_castle_move(from, piece);
        self.invalidate_king_castle_move(from, piece);
        proof {
            lemma_same_pieces(moved, *self);
        }
    }

    /// Double pawn push (jump the first square) for pawns on their side's starting rank with both forward square unobstructed.
    #[verifier::spinoff_prover]
    fn double_pawn_push(&mut self, from: Square, to: Square, en_passant_square: Square, player: Player)
        requires
            old(self).wf(),
            holds(*old(self), from, PieceType::Pawn, player),
            is_vacant(*old(self), to),
            sq_index(en_passant_square) / 8 == 2 || sq_index(en_passant_square) / 8 == 5,
        ensures
            final(self).wf(),
            final(self).pieces() == old(self).pieces().update(sq_index(from), None).update(sq_index(to), Some(sided(PieceType::Pawn, player))),
            final(self).hasher.value() == old(self).hasher.value() ^ (spec_piece_square_key(from, sided(PieceType::Pawn, player))
                ^ spec_piece_square_key(to, sided(PieceType::Pawn, player))),
            final(self).state == (State { en_passant_square: Some(en_passant_square), halfmove_clock: 0, ..old(self).state }),
            final(self).side_to_move == old(self).side_to_move,
            final(self).halfmove_count == old(self).halfmove_count,
    {
        let ghost h = self.hasher.value();
        // Update pieces
        self.move_piece(from, to, SidedPiece::new(PieceType::Pawn, player));
        let ghost moved = *self;
        proof {
            let pawn = sided(PieceType::Pawn, player);
            lemma_toggle_grouping(h, spec_piece_square_key(from, pawn), spec_piece_square_key(to, pawn), 0, 0);
        }

        // Update state
        self.state.set_en_passant(en_passant_square);
        self.state.clear_halfmove_clock();
        proof {
            lemma_same_pieces(moved, *self);
        }
    }

    /// Capture a piece
    #[verifier::spinoff_prover]
    fn capture_piece(&mut self, from: Square, to: Square, piece: SidedPiece, captured_piece_type: PieceType)
        requires
            old(self).wf(),
            old(self).pieces()[sq_index(from)] == Some(piece),
            holds(*old(self), to, captured_piece_type, piece.player.other()),
            captured_piece_type != PieceType::King,
        ensures
            final(self).wf(),
            final(self).pieces() == old(self).pieces().update(sq_index(to), None).update(sq_index(from), None).update(sq_index(to), Some(piece)),
            final(self).hasher.value() == old(self).hasher.value() ^ (spec_piece_square_key(to, sided(captured_piece_type, piece.player.other()))
                ^ spec_piece_square_key(from, piece) ^ spec_piece_square_key(to, piece)),
            rights_bits(final(self).state.castles.spec_rights()) == king_move_rights(
                rook_move_rights(
                    rook_move_rights(rights_bits(old(self).state.castles.spec_rights()), old(self).state.castles, from, piece),
                    old(self).state.castles,
                    to,
                    sided(captured_piece_type, piece.player.other()),
                ),
                old(self).state.castles,
                from,
                piece,
            ),
            same_castle_squares(final(self).state.castles, old(self).state.castles),
            final(self).state == (State {
                castles: final(self).state.castles,
                captured_piece: Some(captured_piece_type),
                halfmove_clock: 0,
                ..old(self).state
            }),
            final(self).side_to_move == old(self).side_to_move,
            final(self).halfmove_count == old(self).halfmove_count,
    {
        let ghost h = self.hasher.value();
        let captured = SidedPiece::new(captured_piece_type, piece.player.switch());
        // Update the pieces
        self.remove_piece(to, captured);
        self.move_piece(from, to, piece);
        let ghost moved = *self;
        proof {
            lemma_toggle_grouping(h, spec_piece_square_key(to, captured), spec_piece_square_key(from, piece), spec_piece_square_key(to, piece), 0);
        }

        // Update state
        self.state.set_capture(captured_piece_type);
        self.state.clear_halfmove_clock();

        // Check if piece that captured was castle rook
        self.invalidate_rook_castle_move(from, piece);
        // Check if piece captured was castle rook
        self.invalidate_rook_castle_move(to, captured);
        // Check if piece that captured was the king with castle rights
        self.invalidate_king_castle_move(from, piece);
        proof {
            lemma_same_pieces(moved, *self);
        }
    }

    /// Pawn en-passant capture opposing teams previously double pushed pawn.
    #[verifier::spinoff_prover]
    fn en_passant_capture(&mut self, from: Square, to: Square, pawn_square: Square, player: Player)
        requires
            old(self).wf(),
            holds(*old(self), from, PieceType::Pawn, player),
            holds(*old(self), pawn_square, PieceType::Pawn, player.other()),
            is_vacant(*old(self), to),
        ensures
            final(self).wf(),
            final(self).pieces() == old(self).pieces().update(sq_index(from), None).update(sq_index(to), Some(sided(PieceType::Pawn, player)))
                .update(sq_index(pawn_square), None),
            final(self).hasher.value() == old(self).hasher.value() ^ (spec_piece_square_key(from, sided(PieceType::Pawn, player))
                ^ spec_piece_square_key(to, sided(PieceType::Pawn, player))
                ^ spec_piece_square_key(pawn_square, sided(PieceType::Pawn, player.other()))),
            final(self).state == (State { captured_piece: Some(PieceType::Pawn), halfmove_clock: 0, ..old(self).state }),
            final(self).side_to_move == old(self).side_to_move,
            final(self).halfmove_count == old(self).halfmove_count,
    {
        // Update pieces
        let ghost h = self.hasher.value();
        self.move_piece(from, to, SidedPiece::new(PieceType::Pawn, player));
        self.remove_piece(pawn_square, SidedPiece::new(PieceType::Pawn, player.switch()));
        let ghost moved = *self;
        proof {
            lemma_toggle_grouping(h, spec_piece_square_key(from, sided(PieceType::Pawn, player)),
                spec_piece_square_key(to, sided(PieceType::Pawn, player)),
                spec_piece_square_key(pawn_square, sided(PieceType::Pawn, player.other())), 0);
        }

        // Update state
        self.state.set_capture(PieceType::Pawn);
        self.state.clear_halfmove_clock();
        proof {
            lemma_same_pieces(moved, *self);
        }
    }
}

impl Board {
    /// Castle with rook on the side of the king
    #[verifier::spinoff_prover]
    #[verifier::rlimit(40)]
    fn castle(&mut self, king_from: Square, king_to: Square, castle_direction: CastleDirection, player: Player)
        requires
            old(self).wf(),
            holds(*old(self), king_from, PieceType::King, player),
            is_vacant(*old(self), king_to),
            holds(*old(self), old(self).state.castles.spec_rook_from(player, castle_direction), PieceType::Rook, player),
            spec_rook_to_square(player, castle_direction) != king_to,
            is_vacant(*old(self), spec_rook_to_square(player, castle_direction))
                || spec_rook_to_square(player, castle_direction) == king_from,
        ensures
            final(self).wf(),
            final(self).pieces() == old(self).pieces().update(sq_index(king_from), None)
                .update(sq_index(king_to), Some(sided(PieceType::King, player)))
                .update(sq_index(old(self).state.castles.spec_rook_from(player, castle_direction)), None)
                .update(sq_index(spec_rook_to_square(player, castle_direction)), Some(sided(PieceType::Rook, player))),
            final(self).hasher.value() == old(self).hasher.value() ^ (spec_piece_square_key(king_from, sided(PieceType::King, player))
                ^ spec_piece_square_key(king_to, sided(PieceType::King, player))
                ^ spec_piece_square_key(old(self).state.castles.spec_rook_from(player, castle_direction), sided(PieceType::Rook, player))
                ^ spec_piece_square_key(spec_rook_to_square(player, castle_direction), sided(PieceType::Rook, player))),
            rights_bits(final(self).state.castles.spec_rights()) == rights_bits(old(self).state.castles.spec_rights()) & !side_flags(player),
            same_castle_squares(final(self).state.castles, old(self).state.castles),
            final(self).state == (State { castles: final(self).state.castles, ..old(self).state }),
            final(self).side_to_move == old(self).side_to_move,
            final(self).halfmove_count == old(self).halfmove_count,
    {
        let rook_from_square = self.state.castles.rook_from_square(player, castle_direction);
        let rook_to_square = self.state.castles.rook_to_square(player, castle_direction);
        let ghost h = self.hasher.value();
        self.move_piece(king_from, king_to, SidedPiece::new(PieceType::King, player));
        self.move_piece(rook_from_square, rook_to_square, SidedPiece::new(PieceType::Rook, player));
        let ghost moved = *self;
        proof {
            lemma_toggle_grouping(h, spec_piece_square_key(king_from, sided(PieceType::King, player)),
                spec_piece_square_key(king_to, sided(PieceType::King, player)),
                spec_piece_square_key(rook_from_square, sided(PieceType::Rook, player)),
                spec_piece_square_key(rook_to_square, sided(PieceType::Rook, player)));
        }

        // Remove all rights for this side when castling
        proof {
            lemma_side_rights_bits(player);
        }
        self.state.remove_castle_rights(CastleRights::for_side(player));
        proof {
            lemma_same_pieces(moved, *self);
        }
    }

    /// Push a pawn to the final rank promoting to a [`PromotionPieceType`]
    #[verifier::spinoff_prover]
    fn promote(&mut self, from: Square, to: Square, promotion: PromotionPieceType, player: Player)
        requires
            old(self).wf(),
            holds(*old(self), from, PieceType::Pawn, player),
            is_vacant(*old(self), to),
        ensures
            final(self).wf(),
            final(self).pieces() == old(self).pieces().update(sq_index(from), None)
                .update(sq_index(to), Some(sided(spec_promoted_piece(promotion), player))),
            final(self).hasher.value() == old(self).hasher.value() ^ (spec_piece_square_key(from, sided(PieceType::Pawn, player))
                ^ spec_piece_square_key(to, sided(spec_promoted_piece(promotion), player))),
            final(self).state == (State { halfmove_clock: 0, ..old(self).state }),
            final(self).side_to_move == old(self).side_to_move,
            final(self).halfmove_count == old(self).halfmove_count,
    {
        let ghost h = self.hasher.value();
        // Update pieces
        self.remove_piece(from, SidedPiece::new(PieceType::Pawn, player));
        self.add_piece(to, SidedPiece::new(promotion.to_piece_type(), player));
        let ghost moved = *self;
        proof {
            lemma_toggle_grouping(h, spec_piece_square_key(from, sided(PieceType::Pawn, player)),
                spec_piece_square_key(to, sided(spec_promoted_piece(promotion), player)), 0, 0);
        }

        // Update state
        self.state.clear_halfmove_clock();
        proof {
            lemma_same_pieces(moved, *self);
        }
    }

    /// Capture towards the final rank with a pawn to promote to a [`PromotionPieceType`]
    #[verifier::spinoff_prover]
    fn promoting_capture(&mut self, from: Square, to: Square, promotion: PromotionPieceType, captured_piece: PieceType, player: Player)
        requires
            old(self).wf(),
            holds(*old(self), from, PieceType::Pawn, player),
            holds(*old(self), to, captured_piece, player.other()),
        ensures
            final(self).wf(),
            final(self).pieces() == old(self).pieces().update(sq_index(from), None).update(sq_index(to), None)
                .update(sq_index(to), Some(sided(spec_promoted_piece(promotion), player))),
            final(self).hasher.value() == old(self).hasher.value() ^ (spec_piece_square_key(from, sided(PieceType::Pawn, player))
                ^ spec_piece_square_key(to, sided(captured_piece, player.other()))
                ^ spec_piece_square_key(to, sided(spec_promoted_piece(promotion), player))),
            rights_bits(final(self).state.castles.spec_rights()) == rook_move_rights(
                rights_bits(old(self).state.castles.spec_rights()),
                old(self).state.castles,
                to,
                sided(captured_piece, player.other()),
            ),
            same_castle_squares(final(self).state.castles, old(self).state.castles),
            final(self).state == (State { castles: final(self).state.castles, halfmove_clock: 0, ..old(self).state }),
            final(self).side_to_move == old(self).side_to_move,
            final(self).halfmove_count == old(self).halfmove_count,
    {
        let ghost h = self.hasher.value();
        // Update pieces
        self.remove_piece(from, SidedPiece::new(PieceType::Pawn, player));
        self.remove_piece(to, SidedPiece::new(captured_piece, player.switch()));
        self.add_piece(to, SidedPiece::new(promotion.to_piece_type(), player));
        let ghost moved = *self;
        proof {
            lemma_toggle_grouping(h, spec_piece_square_key(from, sided(PieceType::Pawn, player)),
                spec_piece_square_key(to, sided(captured_piece, player.other())),
                spec_piece_square_key(to, sided(spec_promoted_piece(promotion), player)), 0);
        }

        // Update state
        self.state.clear_halfmove_clock();

        // Make sure rook wasn't captured to invalidate castle rights
        self.invalidate_rook_castle_move(to, SidedPiece::new(captured_piece, player.switch()));
        proof {
            lemma_same_pieces(moved, *self);
        }
    }
}

/// The rank (0 for rank 1 .. 7 for rank 8) of a square
pub open spec fn rank_of(square: Square) -> int {
    index_rank(sq_index(square))
}

/// The file (0 for A .. 7 for H) of a square
pub open spec fn file_of(square: Square) -> int {
    index_file(sq_index(square))
}

/// The move can be made on the board by the side to move: the pieces it moves, captures and passes are where it
/// says, the squares it moves to are free, pawn moves run between the right ranks, and castling has its right
pub open spec fn move_fits(board: Board, chess_move: ChessMove) -> bool {
    let side = board.side_to_move;
    let from = chess_move.from;
    let to = chess_move.to;
    match chess_move.move_type {
        MoveType::Quiet { piece_type } => holds(board, from, piece_type, side) && is_vacant(board, to),
        MoveType::DoublePawnPush { en_passant_square } => {
            &&& holds(board, from, PieceType::Pawn, side)
            &&& is_vacant(board, to)
            &&& is_vacant(board, en_passant_square)
            &&& file_of(from) == file_of(to)
            &&& match side {
                Player::White => rank_of(from) == 1 && rank_of(to) == 3 && rank_of(en_passant_square) == 2,
                Player::Black => rank_of(from) == 6 && rank_of(to) == 4 && rank_of(en_passant_square) == 5,
            }
        },
        MoveType::Capture { piece_type, captured_piece } => {
            &&& holds(board, from, piece_type, side)
            &&& holds(board, to, captured_piece, side.other())
            &&& captured_piece != PieceType::King
        },
        MoveType::EnPassantCapture { captured_pawn_square } => {
            &&& holds(board, from, PieceType::Pawn, side)
            &&& holds(board, captured_pawn_square, PieceType::Pawn, side.other())
            &&& is_vacant(board, to)
            &&& (file_of(from) - file_of(to) == 1 || file_of(to) - file_of(from) == 1)
            &&& file_of(to) == file_of(captured_pawn_square)
            &&& match side {
                Player::White => rank_of(from) == 4 && rank_of(to) == 5,
                Player::Black => rank_of(from) == 3 && rank_of(to) == 2,
            }
        },
        MoveType::Castle { castle_direction } => {
            let rook_from = board.state.castles.spec_rook_from(side, castle_direction);
            let rook_to = spec_rook_to_square(side, castle_direction);
            &&& has_flag(rights_bits(board.state.castles.spec_rights()), side, castle_direction == CastleDirection::KingSide)
            &&& holds(board, from, PieceType::King, side)
            &&& is_vacant(board, to)
            &&& holds(board, rook_from, PieceType::Rook, side)
            &&& rook_to != to
            &&& (is_vacant(board, rook_to) || rook_to == from)
        },
        MoveType::Promotion { .. } => {
            &&& holds(board, from, PieceType::Pawn, side)
            &&& is_vacant(board, to)
            &&& file_of(from) == file_of(to)
            &&& match side {
                Player::White => rank_of(from) == 6 && rank_of(to) == 7,
                Player::Black => rank_of(from) == 1 && rank_of(to) == 0,
            }
        },
        MoveType::PromotingCapture { captured_piece, .. } => {
            &&& holds(board, from, PieceType::Pawn, side)
            &&& holds(board, to, captured_piece, side.other())
            &&& (file_of(from) - file_of(to) == 1 || file_of(to) - file_of(from) == 1)
            &&& match side {
                Player::White => rank_of(from) == 6 && rank_of(to) == 7,
                Player::Black => rank_of(from) == 1 && rank_of(to) == 0,
            }
        },
    }
}

/// The pieces after the side to move makes a move
pub open spec fn moved_pieces(board: Board, chess_move: ChessMove) -> Seq<Option<SidedPiece>> {
    let side = board.side_to_move;
    let pieces = board.pieces();
    let f = sq_index(chess_move.from);
    let t = sq_index(chess_move.to);
    match chess_move.move_type {
        MoveType::Quiet { piece_type } => pieces.update(f, None).update(t, Some(sided(piece_type, side))),
        MoveType::DoublePawnPush { .. } => pieces.update(f, None).update(t, Some(sided(PieceType::Pawn, side))),
        MoveType::Capture { piece_type, .. } => pieces.update(t, None).update(f, None).update(t, Some(sided(piece_type, side))),
        MoveType::EnPassantCapture { captured_pawn_square } => pieces.update(f, None).update(t, Some(sided(PieceType::Pawn, side)))
            .update(sq_index(captured_pawn_square), None),
        MoveType::Castle { castle_direction } => pieces.update(f, None).update(t, Some(sided(PieceType::King, side)))
            .update(sq_index(board.state.castles.spec_rook_from(side, castle_direction)), None)
            .update(sq_index(spec_rook_to_square(side, castle_direction)), Some(sided(PieceType::Rook, side))),
        MoveType::Promotion { promotion } => pieces.update(f, None).update(t, Some(sided(spec_promoted_piece(promotion), side))),
        MoveType::PromotingCapture { promotion, .. } => pieces.update(f, None).update(t, None)
            .update(t, Some(sided(spec_promoted_piece(promotion), side))),
    }
}

/// The keys toggled by the pieces a move moves, captures and places
pub open spec fn move_keys(board: Board, side: Player, chess_move: ChessMove) -> u64 {
    let from = chess_move.from;
    let to = chess_move.to;
    let key = |square: Square, piece_type: PieceType, player: Player| spec_piece_square_key(square, sided(piece_type, player));
    match chess_move.move_type {
        MoveType::Quiet { piece_type } => key(from, piece_type, side) ^ key(to, piece_type, side),
        MoveType::DoublePawnPush { .. } => key(from, PieceType::Pawn, side) ^ key(to, PieceType::Pawn, side),
        MoveType::Capture { piece_type, captured_piece } => key(to, captured_piece, side.other()) ^ key(from, piece_type, side)
            ^ key(to, piece_type, side),
        MoveType::EnPassantCapture { captured_pawn_square } => key(from, PieceType::Pawn, side) ^ key(to, PieceType::Pawn, side)
            ^ key(captured_pawn_square, PieceType::Pawn, side.other()),
        MoveType::Castle { castle_direction } => key(from, PieceType::King, side) ^ key(to, PieceType::King, side)
            ^ key(board.state.castles.spec_rook_from(side, castle_direction), PieceType::Rook, side)
            ^ key(spec_rook_to_square(side, castle_direction), PieceType::Rook, side),
        MoveType::Promotion { promotion } => key(from, PieceType::Pawn, side) ^ key(to, spec_promoted_piece(promotion), side),
        MoveType::PromotingCapture { promotion, captured_piece } => key(from, PieceType::Pawn, side)
            ^ key(to, captured_piece, side.other()) ^ key(to, spec_promoted_piece(promotion), side),
    }
}

/// The castle rights flags after the side to move makes a move
pub open spec fn rights_after_move(board: Board, chess_move: ChessMove) -> u8 {
    let bits = rights_bits(board.state.castles.spec_rights());
    let castles = board.state.castles;
    let side = board.side_to_move;
    let from = chess_move.from;
    let to = chess_move.to;
    match chess_move.move_type {
        MoveType::Quiet { piece_type } => king_move_rights(
            rook_move_rights(bits, castles, from, sided(piece_type, side)),
            castles,
            from,
            sided(piece_type, side),
        ),
        MoveType::Capture { piece_type, captured_piece } => king_move_rights(
            rook_move_rights(rook_move_rights(bits, castles, from, sided(piece_type, side)), castles, to, sided(captured_piece, side.other())),
            castles,
            from,
            sided(piece_type, side),
        ),
        MoveType::Castle { .. } => bits & !side_flags(side),
        MoveType::PromotingCapture { captured_piece, .. } => rook_move_rights(bits, castles, to, sided(captured_piece, side.other())),
        _ => bits,
    }
}

/// The half-move clock after a move: reset by pawn moves and captures, else one more (saturating)
pub open spec fn clock_after_move(board: Board, chess_move: ChessMove) -> u16 {
    match chess_move.move_type {
        MoveType::Quiet { piece_type: PieceType::Pawn } => 0,
        MoveType::Quiet { .. } | MoveType::Castle { .. } => if board.state.halfmove_clock == u16::MAX {
            u16::MAX
        } else {
            (board.state.halfmove_clock + 1) as u16
        },
        _ => 0,
    }
}

/// The piece a move captures, as recorded in the state
pub open spec fn captured_by_move(chess_move: ChessMove) -> Option<PieceType> {
    match chess_move.move_type {
        MoveType::Capture { captured_piece, .. } => Some(captured_piece),
        MoveType::EnPassantCapture { .. } => Some(PieceType::Pawn),
        _ => None,
    }
}

/// The en-passant square a move leaves behind
pub open spec fn en_passant_after_move(chess_move: ChessMove) -> Option<Square> {
    match chess_move.move_type {
        MoveType::DoublePawnPush { en_passant_square } => Some(en_passant_square),
        _ => None,
    }
}

/// `after` is `before` once the side to move made the move: its pieces moved, the other side to move, one more
/// half move, the state updated (its checkers being exactly the pieces of the side that moved attacking the other
/// side's king), and the hash toggled by the keys of the state's features before, the moved pieces, the side and the
/// keys of the state's features after
pub open spec fn made_move(before: Board, chess_move: ChessMove, after: Board) -> bool {
    &&& after.wf()
    &&& after.pieces() == moved_pieces(before, chess_move)
    &&& after.side_to_move == before.side_to_move.other()
    &&& after.halfmove_count == before.halfmove_count + 1
    &&& after.hasher.value() == (((before.hasher.value() ^ state_keys(before.state)) ^ move_keys(before, before.side_to_move, chess_move))
        ^ spec_side_key()) ^ state_keys(after.state)
    &&& after.state.en_passant_square == en_passant_after_move(chess_move)
    &&& after.state.captured_piece == captured_by_move(chess_move)
    &&& after.state.halfmove_clock == clock_after_move(before, chess_move)
    &&& rights_bits(after.state.castles.spec_rights()) == rights_after_move(before, chess_move)
    &&& same_castle_squares(after.state.castles, before.state.castles)
    &&& forall|i: int| 0 <= i < 64 ==> #[trigger] after.state.checkers.has(i)
        == spec_checker(after, before.side_to_move, i)
    &&& move_gen_masks_match(after)
    &&& after.state.check_squares.at(PieceType::King) == before.state.check_squares.at(PieceType::King)
}

/// The board's checkers are exactly the pieces of the side not to move that attack the king of the side to move
pub open spec fn checkers_match(board: Board) -> bool {
    forall|i: int| 0 <= i < 64 ==> #[trigger] board.state.checkers.has(i) == spec_checker(board, board.side_to_move.other(), i)
}

/// After a move the checkers are exactly the pieces giving the side now to move check
pub proof fn lemma_made_move_checkers(before: Board, chess_move: ChessMove, after: Board)
    requires
        made_move(before, chess_move, after),
    ensures
        checkers_match(after),
{
    assert(after.side_to_move.other() == before.side_to_move) by {
        match before.side_to_move {
            Player::White => {},
            Player::Black => {},
        }
    }
}

/// A king moving from its castling start square, with or without a capture, or castling
pub open spec fn king_leaves_start(board: Board, chess_move: ChessMove) -> bool {
    let from_start = chess_move.from == board.state.castles.spec_king_from(board.side_to_move);
    match chess_move.move_type {
        MoveType::Quiet { piece_type } => piece_type == PieceType::King && from_start,
        MoveType::Capture { piece_type, .. } => piece_type == PieceType::King && from_start,
        MoveType::Castle { .. } => true,
        _ => false,
    }
}

/// Flag values without either flag of a side hold neither of that side's abilities
proof fn lemma_side_flags_cleared(bits: u8, side: Player)
    ensures
        !has_flag(bits & !side_flags(side), side, true),
        !has_flag(bits & !side_flags(side), side, false),
        bits & side_flags(side) == 0 ==> !has_flag(bits, side, true) && !has_flag(bits, side, false),
{
    assert(1u8 | 2u8 == 3u8 && 4u8 | 8u8 == 12u8) by (bit_vector);
    assert({
        &&& (bits & !3u8) % 2 != 1 && ((bits & !3u8) / 2) % 2 != 1
        &&& ((bits & !12u8) / 4) % 2 != 1 && ((bits & !12u8) / 8) % 2 != 1
        &&& bits & 3u8 == 0 ==> bits % 2 != 1 && (bits / 2) % 2 != 1
        &&& bits & 12u8 == 0 ==> (bits / 4) % 2 != 1 && (bits / 8) % 2 != 1
    }) by (bit_vector);
}

/// A side whose king leaves its castling start square, by a move, a capture or castling, holds neither of its castle
/// abilities afterwards
pub proof fn lemma_king_move_loses_castle_rights(before: Board, chess_move: ChessMove, after: Board)
    requires
        made_move(before, chess_move, after),
        king_leaves_start(before, chess_move),
    ensures
        !has_flag(rights_bits(after.state.castles.spec_rights()), before.side_to_move, true),
        !has_flag(rights_bits(after.state.castles.spec_rights()), before.side_to_move, false),
{
    let side = before.side_to_move;
    let bits = rights_bits(before.state.castles.spec_rights());
    let king = sided(PieceType::King, side);
    let castles = before.state.castles;
    match chess_move.move_type {
        MoveType::Quiet { .. } => {
            let y = rook_move_rights(bits, castles, chess_move.from, king);
            lemma_side_flags_cleared(y, side);
        },
        MoveType::Capture { captured_piece, .. } => {
            let y = rook_move_rights(rook_move_rights(bits, castles, chess_move.from, king), castles, chess_move.to,
                sided(captured_piece, side.other()));
            lemma_side_flags_cleared(y, side);
        },
        _ => {
            lemma_side_flags_cleared(bits, side);
        },
    }
}

/// Clearing flags from a flag value never adds an ability, and removes every ability whose flag is cleared
proof fn lemma_clear_flags(bits: u8, cleared: u8)
    ensures
        forall|side: Player, king_side: bool| #[trigger] has_flag(bits & !cleared, side, king_side) ==> has_flag(bits, side, king_side),
        forall|side: Player, king_side: bool| right_flag(side, king_side) & cleared != 0 ==> !#[trigger] has_flag(
            bits & !cleared,
            side,
            king_side,
        ),
        forall|side: Player, king_side: bool| #[trigger] right_flag(side, king_side) & right_flag(side, king_side) != 0,
{
    assert({
        &&& ((bits & !cleared) % 2 == 1 ==> bits % 2 == 1) && (1u8 & cleared != 0 ==> (bits & !cleared) % 2 != 1)
        &&& (((bits & !cleared) / 2) % 2 == 1 ==> (bits / 2) % 2 == 1) && (2u8 & cleared != 0 ==> ((bits & !cleared) / 2) % 2 != 1)
        &&& (((bits & !cleared) / 4) % 2 == 1 ==> (bits / 4) % 2 == 1) && (4u8 & cleared != 0 ==> ((bits & !cleared) / 4) % 2 != 1)
        &&& (((bits & !cleared) / 8) % 2 == 1 ==> (bits / 8) % 2 == 1) && (8u8 & cleared != 0 ==> ((bits & !cleared) / 8) % 2 != 1)
        &&& 1u8 & 1u8 != 0 && 2u8 & 2u8 != 0 && 4u8 & 4u8 != 0 && 8u8 & 8u8 != 0
    }) by (bit_vector);
    assert forall|side: Player, king_side: bool| #[trigger] right_flag(side, king_side) & right_flag(side, king_side) != 0 by {
        match (side, king_side) {
            (Player::White, true) => {},
            (Player::White, false) => {},
            (Player::Black, true) => {},
            (Player::Black, false) => {},
        }
    }
}

/// The rights a rook move or a king move leaves never hold an ability the rights before did not, and a rook leaving a
/// castling rook square loses that square's ability
proof fn lemma_move_rights_shrink(bits: u8, castles: Castles, from: Square, piece: SidedPiece)
    ensures
        forall|side: Player, king_side: bool| #[trigger] has_flag(rook_move_rights(bits, castles, from, piece), side, king_side)
            ==> has_flag(bits, side, king_side),
        forall|side: Player, king_side: bool| #[trigger] has_flag(king_move_rights(bits, castles, from, piece), side, king_side)
            ==> has_flag(bits, side, king_side),
        piece.piece_type == PieceType::Rook && from == castles.spec_rook_from(piece.player, CastleDirection::KingSide) ==> !has_flag(
            rook_move_rights(bits, castles, from, piece),
            piece.player,
            true,
        ),
        piece.piece_type == PieceType::Rook && from == castles.spec_rook_from(piece.player, CastleDirection::QueenSide) && from
            != castles.spec_rook_from(piece.player, CastleDirection::KingSide) ==> !has_flag(
            rook_move_rights(bits, castles, from, piece),
            piece.player,
            false,
        ),
{
    lemma_clear_flags(bits, right_flag(piece.player, true));
    lemma_clear_flags(bits, right_flag(piece.player, false));
    lemma_clear_flags(bits, side_flags(piece.player));
}

/// A move never gives a side a castle ability it did not hold
pub proof fn lemma_castle_rights_never_grow(before: Board, chess_move: ChessMove, after: Board)
    requires
        made_move(before, chess_move, after),
    ensures
        forall|side: Player, king_side: bool| #[trigger] has_flag(rights_bits(after.state.castles.spec_rights()), side, king_side)
            ==> has_flag(rights_bits(before.state.castles.spec_rights()), side, king_side),
{
    let bits = rights_bits(before.state.castles.spec_rights());
    let castles = before.state.castles;
    let mover = before.side_to_move;
    let (from, to) = (chess_move.from, chess_move.to);
    match chess_move.move_type {
        MoveType::Quiet { piece_type } => {
            let piece = sided(piece_type, mover);
            lemma_move_rights_shrink(bits, castles, from, piece);
            lemma_move_rights_shrink(rook_move_rights(bits, castles, from, piece), castles, from, piece);
        },
        MoveType::Capture { piece_type, captured_piece } => {
            let piece = sided(piece_type, mover);
            let y = rook_move_rights(bits, castles, from, piece);
            let z = rook_move_rights(y, castles, to, sided(captured_piece, mover.other()));
            lemma_move_rights_shrink(bits, castles, from, piece);
            lemma_move_rights_shrink(y, castles, to, sided(captured_piece, mover.other()));
            lemma_move_rights_shrink(z, castles, from, piece);
        },
        MoveType::Castle { .. } => {
            lemma_clear_flags(bits, side_flags(mover));
        },
        MoveType::PromotingCapture { captured_piece, .. } => {
            lemma_move_rights_shrink(bits, castles, to, sided(captured_piece, mover.other()));
        },
        _ => {},
    }
}

/// A rook leaving its castling start square, and a rook captured on its castling start square, each lose that
/// square's castle ability (given distinct king side and queen side rook squares)
pub proof fn lemma_rook_leaving_start_loses_castle_right(before: Board, chess_move: ChessMove, after: Board, direction: CastleDirection)
    requires
        made_move(before, chess_move, after),
        before.state.castles.spec_rook_from(before.side_to_move, CastleDirection::KingSide) != before.state.castles.spec_rook_from(
            before.side_to_move,
            CastleDirection::QueenSide,
        ),
        before.state.castles.spec_rook_from(before.side_to_move.other(), CastleDirection::KingSide)
            != before.state.castles.spec_rook_from(before.side_to_move.other(), CastleDirection::QueenSide),
    ensures
        rook_leaves(chess_move, before.state.castles.spec_rook_from(before.side_to_move, direction)) ==> !has_flag(
            rights_bits(after.state.castles.spec_rights()),
            before.side_to_move,
            direction == CastleDirection::KingSide,
        ),
        rook_captured_on(chess_move, before.state.castles.spec_rook_from(before.side_to_move.other(), direction)) ==> !has_flag(
            rights_bits(after.state.castles.spec_rights()),
            before.side_to_move.other(),
            direction == CastleDirection::KingSide,
        ),
{
    let bits = rights_bits(before.state.castles.spec_rights());
    let castles = before.state.castles;
    let mover = before.side_to_move;
    let (from, to) = (chess_move.from, chess_move.to);
    match chess_move.move_type {
        MoveType::Quiet { piece_type } => {
            let piece = sided(piece_type, mover);
            lemma_move_rights_shrink(bits, castles, from, piece);
            lemma_move_rights_shrink(rook_move_rights(bits, castles, from, piece), castles, from, piece);
        },
        MoveType::Capture { piece_type, captured_piece } => {
            let piece = sided(piece_type, mover);
            let y = rook_move_rights(bits, castles, from, piece);
            let z = rook_move_rights(y, castles, to, sided(captured_piece, mover.other()));
            lemma_move_rights_shrink(bits, castles, from, piece);
            lemma_move_rights_shrink(y, castles, to, sided(captured_piece, mover.other()));
            lemma_move_rights_shrink(z, castles, from, piece);
        },
        MoveType::PromotingCapture { captured_piece, .. } => {
            lemma_move_rights_shrink(bits, castles, to, sided(captured_piece, mover.other()));
        },
        _ => {},
    }
}

/// A move that neither moves the king from its castling start square (nor castles), nor moves a rook from one of its
/// side's castling rook squares, nor captures a rook on one of the other side's castling rook squares, keeps the
/// castle rights as they were
pub proof fn lemma_other_moves_keep_castle_rights(before: Board, chess_move: ChessMove, after: Board)
    requires
        made_move(before, chess_move, after),
        !king_leaves_start(before, chess_move),
        !rook_leaves(chess_move, before.state.castles.spec_rook_from(before.side_to_move, CastleDirection::KingSide)),
        !rook_leaves(chess_move, before.state.castles.spec_rook_from(before.side_to_move, CastleDirection::QueenSide)),
        !rook_captured_on(chess_move, before.state.castles.spec_rook_from(before.side_to_move.other(), CastleDirection::KingSide)),
        !rook_captured_on(chess_move, before.state.castles.spec_rook_from(before.side_to_move.other(), CastleDirection::QueenSide)),
    ensures
        rights_bits(after.state.castles.spec_rights()) == rights_bits(before.state.castles.spec_rights()),
{
}

/// A move moves a pawn, or captures
pub open spec fn is_pawn_move_or_capture(chess_move: ChessMove) -> bool {
    match chess_move.move_type {
        MoveType::Quiet { piece_type } => piece_type == PieceType::Pawn,
        MoveType::Castle { .. } => false,
        _ => true,
    }
}

/// After a move the half-move clock is zero when the move moved a pawn or captured, and else one more than before
/// (staying at its largest value once there)
pub proof fn lemma_move_clock(before: Board, chess_move: ChessMove, after: Board)
    requires
        made_move(before, chess_move, after),
    ensures
        is_pawn_move_or_capture(chess_move) ==> after.state.halfmove_clock == 0,
        !is_pawn_move_or_capture(chess_move) && before.state.halfmove_clock < u16::MAX ==> after.state.halfmove_clock
            == before.state.halfmove_clock + 1,
        !is_pawn_move_or_capture(chess_move) && before.state.halfmove_clock == u16::MAX ==> after.state.halfmove_clock == u16::MAX,
{
}

/// After a double pawn push the en-passant square is the square the pawn jumped, on the rank between its start and
/// its target; after any other move there is none
pub proof fn lemma_move_en_passant_square(before: Board, chess_move: ChessMove, after: Board)
    requires
        move_fits(before, chess_move),
        made_move(before, chess_move, after),
    ensures
        chess_move.move_type matches MoveType::DoublePawnPush { en_passant_square } ==> after.state.en_passant_square == Some(
            en_passant_square,
        ) && 2 * rank_of(en_passant_square) == rank_of(chess_move.from) + rank_of(chess_move.to),
        !(chess_move.move_type is DoublePawnPush) ==> after.state.en_passant_square is None,
{
}

/// After a capture the state records the type of the piece that stood on the captured square; after an en-passant
/// capture a pawn; after any other move (a capturing promotion included) nothing
pub proof fn lemma_move_records_capture(before: Board, chess_move: ChessMove, after: Board)
    requires
        move_fits(before, chess_move),
        made_move(before, chess_move, after),
    ensures
        chess_move.move_type is Capture ==> (before.pieces()[sq_index(chess_move.to)] matches Some(piece)
            && after.state.captured_piece == Some(piece.piece_type)),
        chess_move.move_type matches MoveType::EnPassantCapture { captured_pawn_square } ==> (before.pieces()[sq_index(
            captured_pawn_square,
        )] matches Some(piece) && after.state.captured_piece == Some(piece.piece_type) && piece.piece_type == PieceType::Pawn),
        !(chess_move.move_type is Capture) && !(chess_move.move_type is EnPassantCapture) ==> after.state.captured_piece is None,
{
}

/// The piece that stands on a move's target square afterwards: the moved piece, the king when castling, and the
/// promoted piece when promoting
pub open spec fn landing_piece(chess_move: ChessMove) -> PieceType {
    match chess_move.move_type {
        MoveType::Quiet { piece_type } => piece_type,
        MoveType::Capture { piece_type, .. } => piece_type,
        MoveType::Castle { .. } => PieceType::King,
        MoveType::Promotion { promotion } => spec_promoted_piece(promotion),
        MoveType::PromotingCapture { promotion, .. } => spec_promoted_piece(promotion),
        _ => PieceType::Pawn,
    }
}

/// The squares a move changes besides its start and target: the captured pawn's square, and the castling rook's start
/// and destination
pub open spec fn side_squares(board: Board, chess_move: ChessMove, i: int) -> bool {
    match chess_move.move_type {
        MoveType::EnPassantCapture { captured_pawn_square } => i == sq_index(captured_pawn_square),
        MoveType::Castle { castle_direction } => i == sq_index(board.state.castles.spec_rook_from(board.side_to_move, castle_direction))
            || i == sq_index(spec_rook_to_square(board.side_to_move, castle_direction)),
        _ => false,
    }
}

/// A move puts its landing piece of the side that moved on its target square, empties its start square (unless a
/// castling rook lands there), empties the captured pawn's square, and leaves every other square as it was
pub proof fn lemma_move_changes_its_squares(before: Board, chess_move: ChessMove, after: Board)
    requires
        before.wf(),
        move_fits(before, chess_move),
        made_move(before, chess_move, after),
    ensures
        after.pieces()[sq_index(chess_move.to)] == Some(sided(landing_piece(chess_move), before.side_to_move)),
        !(chess_move.move_type is Castle) ==> after.pieces()[sq_index(chess_move.from)] is None,
        chess_move.move_type matches MoveType::EnPassantCapture { captured_pawn_square } ==> after.pieces()[sq_index(
            captured_pawn_square,
        )] is None,
        forall|i: int| 0 <= i < 64 && i != sq_index(chess_move.from) && i != sq_index(chess_move.to) && !side_squares(before, chess_move, i)
            ==> #[trigger] after.pieces()[i] == before.pieces()[i],
{
    lemma_square_index_range(chess_move.from);
    lemma_square_index_range(chess_move.to);
    match chess_move.move_type {
        MoveType::EnPassantCapture { captured_pawn_square } => {
            lemma_square_index_range(captured_pawn_square);
        },
        MoveType::Castle { castle_direction } => {
            let side = before.side_to_move;
            lemma_square_index_range(before.state.castles.spec_rook_from(side, castle_direction));
            lemma_square_index_range(spec_rook_to_square(side, castle_direction));
        },
        _ => {},
    }
}

/// A rook moves, with or without a capture, away from `square`
pub open spec fn rook_leaves(chess_move: ChessMove, square: Square) -> bool {
    chess_move.from == square && match chess_move.move_type {
        MoveType::Quiet { piece_type } => piece_type == PieceType::Rook,
        MoveType::Capture { piece_type, .. } => piece_type == PieceType::Rook,
        _ => false,
    }
}

/// A rook is captured on `square`
pub open spec fn rook_captured_on(chess_move: ChessMove, square: Square) -> bool {
    chess_move.to == square && match chess_move.move_type {
        MoveType::Capture { captured_piece, .. } => captured_piece == PieceType::Rook,
        MoveType::PromotingCapture { captured_piece, .. } => captured_piece == PieceType::Rook,
        _ => false,
    }
}

/// Castling leaves the castling rook on the side's back rank, on file d when castling queen side and on file f when
/// castling king side: the square the king passed over
pub proof fn lemma_castle_places_rook(before: Board, chess_move: ChessMove, after: Board)
    requires
        made_move(before, chess_move, after),
    ensures
        chess_move.move_type matches MoveType::Castle { castle_direction } ==> after.pieces()[back_rank(before.side_to_move) * 8
            + if castle_direction == CastleDirection::KingSide { 5int } else { 3int }] == Some(
            sided(PieceType::Rook, before.side_to_move),
        ),
{
    if let MoveType::Castle { castle_direction } = chess_move.move_type {
        let side = before.side_to_move;
        let rook_to = spec_rook_to_square(side, castle_direction);
        lemma_castle_destinations(side, castle_direction);
        lemma_square_index_range(rook_to);
        assert(sq_index(rook_to) == back_rank(side) * 8 + if castle_direction == CastleDirection::KingSide { 5int } else { 3int });
    }
}

impl Board {
    /// Perform a [move](ChessMove) on the board returning a copy of the [`State`] from before the move was made.
    #[verifier::spinoff_prover]
    #[verifier::rlimit(40)]
    pub fn make_move(&mut self, chess_move: ChessMove) -> (previous_state: State)
        requires
            old(self).wf(),
            move_fits(*old(self), chess_move),
            old(self).halfmove_count < u16::MAX,
        ensures
            previous_state == old(self).state,
            made_move(*old(self), chess_move, *final(self)),
    {
        let ghost start = *self;
        // Create copy of current state
        let previous_state = self.state;

        // Take the keys of the en-passant square and castle rights out of the hash while the state changes
        self.toggle_state_keys();

        // Clear previous state
        self.state.clear_en_passant();
        self.state.clear_capture();

        // Increment move counter
        self.halfmove_count += 1;

        // Increment the clock before we move in case we reset it
        self.state.increment_halfmove_clock();
        let ghost prepared = *self;
        proof {
            lemma_same_pieces(start, prepared);
            lemma_square_index_range(chess_move.from);
            lemma_square_index_range(chess_move.to);
        }

        let side = self.side_to_move;
        let ChessMove { move_type, from, to } = chess_move;
        match move_type {
            MoveType::Quiet { piece_type } => self.quiet_move(from, to, SidedPiece::new(piece_type, side)),
            MoveType::DoublePawnPush { en_passant_square } => self.double_pawn_push(from, to, en_passant_square, side),
            MoveType::Capture { piece_type, captured_piece } => self.capture_piece(from, to, SidedPiece::new(piece_type, side), captured_piece),
            MoveType::EnPassantCapture { captured_pawn_square } => self.en_passant_capture(from, to, captured_pawn_square, side),
            MoveType::Castle { castle_direction } => self.castle(from, to, castle_direction, side),
            MoveType::Promotion { promotion } => self.promote(from, to, promotion, side),
            MoveType::PromotingCapture { promotion, captured_piece } => self.promoting_capture(from, to, promotion, captured_piece, side),
        }
        let ghost moved = *self;

        // Update check masks: the pieces of the side that moved attacking the other side's king
        self.update_checkers(true);

        // Switch side for the next player
        self.switch_sides();

        // Update checkers, pinners, pinned, and other move gen state
        self.update_move_gen_masks();
        proof {
            lemma_same_pieces(moved, *self);
            lemma_masks_frame(moved, *self);
        }
        let ghost updated = *self;

        // Put the keys of the new en-passant square and castle rights into the hash
        self.toggle_state_keys();
        proof {
            lemma_same_pieces(updated, *self);
            lemma_masks_frame(updated, *self);
        }

        // Give the previous state so we can undo irreversible state
        previous_state
    }
}

/// The keys of the castle abilities held in a rights flag value
pub open spec fn castle_keys(bits: u8) -> u64 {
    (if has_flag(bits, Player::White, true) { spec_castle_key(Player::White, true) } else { 0 })
        ^ (if has_flag(bits, Player::White, false) { spec_castle_key(Player::White, false) } else { 0 })
        ^ (if has_flag(bits, Player::Black, true) { spec_castle_key(Player::Black, true) } else { 0 })
        ^ (if has_flag(bits, Player::Black, false) { spec_castle_key(Player::Black, false) } else { 0 })
}

/// Removing held castle abilities toggles their keys out of the keys of the abilities held
proof fn lemma_castle_keys_remove(held: u8, removed: u8)
    requires
        held & removed == removed,
    ensures
        castle_keys(held) ^ castle_keys(removed) == castle_keys(held & !removed),
{
    assert(held & removed == removed ==> {
        &&& ((held & !removed) % 2 == 1) == (held % 2 == 1 && !(removed % 2 == 1))
        &&& (((held & !removed) / 2) % 2 == 1) == ((held / 2) % 2 == 1 && !((removed / 2) % 2 == 1))
        &&& (((held & !removed) / 4) % 2 == 1) == ((held / 4) % 2 == 1 && !((removed / 4) % 2 == 1))
        &&& (((held & !removed) / 8) % 2 == 1) == ((held / 8) % 2 == 1 && !((removed / 8) % 2 == 1))
        &&& (removed % 2 == 1) ==> (held % 2 == 1)
        &&& ((removed / 2) % 2 == 1) ==> ((held / 2) % 2 == 1)
        &&& ((removed / 4) % 2 == 1) ==> ((held / 4) % 2 == 1)
        &&& ((removed / 8) % 2 == 1) ==> ((held / 8) % 2 == 1)
    }) by (bit_vector);
    let key = |bits: u8, side: Player, king_side: bool| if has_flag(bits, side, king_side) { spec_castle_key(side, king_side) } else { 0u64 };
    let (a1, a2, a3, a4) = (key(held, Player::White, true), key(held, Player::White, false), key(held, Player::Black, true), key(held, Player::Black, false));
    let (b1, b2, b3, b4) = (key(removed, Player::White, true), key(removed, Player::White, false), key(removed, Player::Black, true),
        key(removed, Player::Black, false));
    assert(((((a1 ^ a2) ^ a3) ^ a4) ^ (((b1 ^ b2) ^ b3) ^ b4)) == ((((a1 ^ b1) ^ (a2 ^ b2)) ^ (a3 ^ b3)) ^ (a4 ^ b4))
        && a1 ^ a1 == 0u64 && a2 ^ a2 == 0u64 && a3 ^ a3 == 0u64 && a4 ^ a4 == 0u64
        && a1 ^ 0u64 == a1 && a2 ^ 0u64 == a2 && a3 ^ 0u64 == a3 && a4 ^ 0u64 == a4) by (bit_vector);
}

impl Board {
    /// Toggle the keys of the castle abilities held in `rights` into (or out of) the hash
    fn toggle_castle_keys(&mut self, rights: CastleRights)
        ensures
            final(self).hasher.value() == old(self).hasher.value() ^ castle_keys(rights_bits(rights)),
            *final(self) == (Board { hasher: final(self).hasher, ..*old(self) }),
    {
        let ghost h = self.hasher.value();
        let white_king = if rights.can_castle(Player::White, true) { self.hasher.toggle_castle_ability(Player::White, true); true } else { false };
        let ghost h1 = self.hasher.value();
        let white_queen = if rights.can_castle(Player::White, false) { self.hasher.toggle_castle_ability(Player::White, false); true } else { false };
        let ghost h2 = self.hasher.value();
        let black_king = if rights.can_castle(Player::Black, true) { self.hasher.toggle_castle_ability(Player::Black, true); true } else { false };
        let ghost h3 = self.hasher.value();
        let black_queen = if rights.can_castle(Player::Black, false) { self.hasher.toggle_castle_ability(Player::Black, false); true } else { false };
        proof {
            let k1 = if white_king { spec_castle_key(Player::White, true) } else { 0u64 };
            let k2 = if white_queen { spec_castle_key(Player::White, false) } else { 0u64 };
            let k3 = if black_king { spec_castle_key(Player::Black, true) } else { 0u64 };
            let k4 = if black_queen { spec_castle_key(Player::Black, false) } else { 0u64 };
            assert(h1 == h ^ k1) by {
                lemma_toggle_zero(h);
            }
            assert(h2 == h1 ^ k2) by {
                lemma_toggle_zero(h1);
            }
            assert(h3 == h2 ^ k3) by {
                lemma_toggle_zero(h2);
            }
            assert(self.hasher.value() == h3 ^ k4) by {
                lemma_toggle_zero(h3);
            }
            lemma_toggle_grouping(h, k1, k2, k3, k4);
        }
    }

    /// Toggle the keys of the state's hashed features, its en-passant square and its castle rights, into (or out of)
    /// the hash
    pub(crate) fn toggle_state_keys(&mut self)
        ensures
            final(self).hasher.value() == old(self).hasher.value() ^ state_keys(old(self).state),
            *final(self) == (Board { hasher: final(self).hasher, ..*old(self) }),
    {
        let ghost h = self.hasher.value();
        match self.state.en_passant_square {
            Some(square) => self.hasher.toggle_en_passant_square(square),
            None => {
                proof {
                    lemma_toggle_zero(h);
                }
            },
        }
        let ghost h1 = self.hasher.value();
        let rights = *self.state.castles.as_ref();
        self.toggle_castle_keys(rights);
        proof {
            let e = en_passant_keys(self.state.en_passant_square);
            assert(h1 == h ^ e);
            lemma_toggle_grouping(h, e, castle_keys(rights_bits(rights)), 0, 0);
        }
    }

    /// Remove castle rights from the state if they are all granted, toggling each removed ability out of the hash
    #[verifier::spinoff_prover]
    pub fn try_remove_castle_rights(&mut self, rights: CastleRights)
        ensures
            ({
                let held = rights_bits(old(self).state.castles.spec_rights());
                let removing = held & rights_bits(rights) == rights_bits(rights);
                &&& rights_bits(final(self).state.castles.spec_rights()) == if removing { held & !rights_bits(rights) } else { held }
                &&& final(self).hasher.value() == if removing {
                    old(self).hasher.value() ^ castle_keys(rights_bits(rights))
                } else {
                    old(self).hasher.value()
                }
            }),
            same_castle_squares(final(self).state.castles, old(self).state.castles),
            final(self).state == (State { castles: final(self).state.castles, ..old(self).state }),
            final(self).piece_squares == old(self).piece_squares,
            final(self).piece_masks == old(self).piece_masks,
            final(self).side_masks == old(self).side_masks,
            final(self).sided_piece_counts == old(self).sided_piece_counts,
            final(self).side_to_move == old(self).side_to_move,
            final(self).halfmove_count == old(self).halfmove_count,
            old(self).hash_matches() ==> final(self).hash_matches(),
    {
        let held = self.state.castles.as_ref().bits();
        let removing = rights.bits();
        proof {
            lemma_rights_bits(rights, 0);
            lemma_rights_bits(self.state.castles.spec_rights(), 0);
        }
        if held & removing == removing {
            let ghost start = *self;
            self.state.remove_castle_rights(rights);
            self.toggle_castle_keys(rights);
            proof {
                lemma_same_pieces(start, *self);
                lemma_castle_keys_remove(held, removing);
                let p = placement_hash(start.pieces(), start.side_to_move);
                let e = en_passant_keys(start.state.en_passant_square);
                lemma_toggle_grouping(e, castle_keys(held), castle_keys(removing), 0, 0);
                lemma_toggle_grouping(p, e ^ castle_keys(held), castle_keys(removing), 0, 0);
            }
        }
    }
}

} // verus!
