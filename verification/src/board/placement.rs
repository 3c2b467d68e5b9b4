//! A board built from the piece on each square, refused when a player has no king
use vstd::prelude::*;

use crate::board::checks::{lemma_masks_frame, move_gen_masks_match};
use crate::board::make_move::checkers_match;
use crate::board::position_hash::{
    lemma_initial_state_keys, lemma_place_keeps_hash, lemma_state_keys_complete_hash, lemma_switch_keeps_hash, placement_hash,
};
use crate::board::zobrist::lemma_toggle_zero;
use crate::board::{lemma_same_pieces, Board};
use crate::castles::Castles;
use crate::piece_type::PieceType;
use crate::player::Player;
use crate::position::IllegalPosition;
use crate::sided_piece::SidedPiece;
use crate::square::{lemma_index_square_at, square_at, Square};

verus! {

/// Some square holds the king of a player
pub open spec fn has_king(squares: Seq<Option<SidedPiece>>, player: Player) -> bool {
    exists|i: int| 0 <= i < squares.len() && #[trigger] squares[i] == Some(SidedPiece { piece_type: PieceType::King, player })
}

/// The pieces of the first `n` squares, the others empty
spec fn placed_up_to(squares: Seq<Option<SidedPiece>>, n: int) -> Seq<Option<SidedPiece>> {
    Seq::new(64, |i: int| if i < n { squares[i] } else { None })
}

/// If some square holds the king of a player
fn find_king(squares: &[Option<SidedPiece>; 64], player: Player) -> (res: bool)
    ensures
        res == has_king(squares@, player),
{
    let mut i: usize = 0;
    while i < 64
        invariant
            i <= 64,
            squares@.len() == 64,
            forall|j: int| 0 <= j < i ==> squares@[j] != Some(SidedPiece { piece_type: PieceType::King, player }),
        decreases 64 - i,
    {
        match squares[i] {
            Some(piece) => {
                if piece.piece_type == PieceType::King && piece.player == player {
                    return true;
                }
            },
            None => {},
        }
        i += 1;
    }
    false
}

impl Board {
    /// Build a board from the piece on each square (by square index, A1 first), the side to move, the castles, the
    /// en-passant square, the half-move clock and the half-move count, with its checkers, blockers, pinners, check
    /// squares and hash computed from them
    ///
    /// # Errors
    /// [`IllegalPosition::MissingKing`] with the first player (white, then black) that has no king
    #[verifier::spinoff_prover]
    pub fn from_placement(
        squares: [Option<SidedPiece>; 64],
        side: Player,
        castles: Castles,
        en_passant_square: Option<Square>,
        halfmove_clock: u16,
        halfmove_count: u16,
    ) -> (res: Result<Board, IllegalPosition>)
        ensures
            res is Err <==> !has_king(squares@, Player::White) || !has_king(squares@, Player::Black),
            res matches Err(e) ==> e == if !has_king(squares@, Player::White) {
                IllegalPosition::MissingKing(Player::White)
            } else {
                IllegalPosition::MissingKing(Player::Black)
            },
            res matches Ok(board) ==> {
                &&& board.wf()
                &&& board.pieces() == squares@
                &&& board.side_to_move == side
                &&& board.halfmove_count == halfmove_count
                &&& board.state.castles == castles
                &&& board.state.en_passant_square == en_passant_square
                &&& board.state.halfmove_clock == halfmove_clock
                &&& board.state.captured_piece is None
                &&& checkers_match(board)
                &&& move_gen_masks_match(board)
                &&& board.hash_matches()
            },
    {
        if !find_king(&squares, Player::White) {
            return Err(IllegalPosition::MissingKing(Player::White));
        }
        if !find_king(&squares, Player::Black) {
            return Err(IllegalPosition::MissingKing(Player::Black));
        }

        // Place each piece
        let mut board = Self::empty_position();
        proof {
            assert(board.pieces() =~= placed_up_to(squares@, 0));
        }
        let mut i: usize = 0;
        while i < 64
            invariant
                i <= 64,
                squares@.len() == 64,
                board.wf(),
                board.pieces() == placed_up_to(squares@, i as int),
                board.side_to_move == Player::White,
                board.halfmove_count == 0,
                board.state.is_initial(),
                board.hash_matches(),
            decreases 64 - i,
        {
            proof {
                lemma_index_square_at(i as int);
            }
            match squares[i] {
                Some(piece) => {
                    let ghost before = board;
                    let square = Square::SQUARES[i];
                    assert(square == square_at(i as int));
                    board.add_piece(square, piece);
                    proof {
                        lemma_place_keeps_hash(before, board, square, piece);
                    }
                },
                None => {},
            }
            proof {
                assert(board.pieces() =~= placed_up_to(squares@, i + 1));
            }
            i += 1;
        }
        proof {
            assert(board.pieces() =~= squares@);
        }
        let ghost placed = board;

        // Switch sides if not white starting
        if side == Player::Black {
            board.switch_sides();
            proof {
                lemma_same_pieces(placed, board);
                lemma_switch_keeps_hash(placed, board);
            }
        }
        let ghost sided = board;

        // Set the state
        board.state.castles = castles;
        board.state.en_passant_square = en_passant_square;
        board.state.set_halfmove_clock(halfmove_clock);
        board.halfmove_count = halfmove_count;
        let ghost unhashed = board;

        // Toggle the keys of the en-passant square and castle rights into the hash
        board.toggle_state_keys();
        let ghost filled = board;
        proof {
            lemma_initial_state_keys(sided.state);
            lemma_toggle_zero(placement_hash(sided.pieces(), sided.side_to_move));
            lemma_same_pieces(placed, sided);
            lemma_same_pieces(sided, unhashed);
            lemma_same_pieces(unhashed, filled);
            lemma_state_keys_complete_hash(unhashed, filled);
        }

        // Update check masks
        board.switch_sides();
        let ghost switched = board;
        board.update_checkers(true);
        let ghost checkers_set = board;
        board.switch_sides();
        let ghost checked = board;
        proof {
            lemma_same_pieces(filled, switched);
            lemma_switch_keeps_hash(filled, switched);
            lemma_same_pieces(switched, checkers_set);
            lemma_same_pieces(checkers_set, checked);
            lemma_switch_keeps_hash(checkers_set, checked);
        }

        // Update checkers, pinners, pinned, and other move gen state
        board.update_move_gen_masks();
        proof {
            lemma_same_pieces(checked, board);
            lemma_masks_frame(switched, board);
            lemma_masks_frame(checked, board);
            assert(board.side_to_move.other() == switched.side_to_move) by {
                match side {
                    Player::White => {},
                    Player::Black => {},
                }
            }
        }
        Ok(board)
    }
}

} // verus!
