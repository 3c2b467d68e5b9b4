//! The board representation: piece placement, side to move and the state kept between moves
use vstd::prelude::*;

use crate::bitboard::{lemma_bit_ops, lemma_mask_ext, lemma_single_bit, BoardMask};
use crate::piece_type::{piece_index, ByPieceType, PieceType};
use crate::player::{player_index, ByPlayer, Player};
use crate::score::{PlyCount, SidedPieceCounts};
use crate::sided_piece::SidedPiece;
use crate::castles::CastleRights;
use crate::square::{lemma_index_square_at, lemma_square_at_index, lemma_square_index_range, sq_index, square_at, BySquare, Square};
use zobrist::{spec_piece_square_key, spec_side_key, ZobristHasher, ZobristInner};

/// Zobrist hashing for matching board transpositions, or positions with the same piece arrangement and game state
pub mod zobrist;
pub mod checks;
pub mod diagram;
pub mod direct_check;
/// FEN string parsing to serialize and deserialize a board
pub mod fen;
pub mod fen_round_trip;
pub mod placement;
pub mod make_move;
pub mod position_hash;
mod state;
pub mod unmake_move;

pub use checks::attacks_square;
pub use state::{is_empty_mask, same_castle_squares, State};

verus! {

/// A snapshot of a game of chess, containing board state for resuming any chess position.
/// Positional state like piece placements, the side to move.
/// As well as game [state](State) like, the halfmove-clock (for 50 move limit), pieces giving check, en-passant square, previously captured piece, etc.
///
/// It also incrementally keeps its Zobrist hash and the material count by piece.
#[derive(Copy, Clone, Debug, PartialEq, Eq)]
pub struct Board {
    /// By each square whether or not it contains a piece
    pub piece_squares: BySquare<Option<PieceType>>,
    /// By each piece the mask of where every matching piece is on the board
    pub piece_masks: ByPieceType<BoardMask>,
    /// By each player, where every matching piece for that side is on the board
    pub side_masks: ByPlayer<BoardMask>,
    /// The player who's turn it is to move
    pub side_to_move: Player,
    /// How many moves have been played
    pub halfmove_count: PlyCount,
    /// State that should be preserved between moves
    pub state: State,
    /// The positional hash for finding transpositions
    pub hasher: ZobristHasher,
    /// The piece counts for material evaluation
    pub sided_piece_counts: SidedPieceCounts,
}

/// How many of the first `n` squares hold a given piece
pub open spec fn count_in(pieces: Seq<Option<SidedPiece>>, piece: SidedPiece, n: int) -> nat
    decreases n,
{
    if n <= 0 {
        0
    } else {
        count_in(pieces, piece, n - 1) + if pieces[n - 1] == Some(piece) {
            1nat
        } else {
            0nat
        }
    }
}

/// Changing one square changes the count of a piece by what left and what arrived there
pub proof fn lemma_count_in_update(pieces: Seq<Option<SidedPiece>>, j: int, value: Option<SidedPiece>, piece: SidedPiece, n: int)
    requires
        0 <= j < pieces.len(),
        n <= pieces.len(),
    ensures
        j < n ==> count_in(pieces.update(j, value), piece, n) + (if pieces[j] == Some(piece) { 1int } else { 0int })
            == count_in(pieces, piece, n) + (if value == Some(piece) { 1int } else { 0int }),
        j >= n ==> count_in(pieces.update(j, value), piece, n) == count_in(pieces, piece, n),
    decreases n,
{
    if n > 0 {
        lemma_count_in_update(pieces, j, value, piece, n - 1);
    }
}

/// A piece can be on at most every square counted
pub proof fn lemma_count_in_bound(pieces: Seq<Option<SidedPiece>>, piece: SidedPiece, n: int)
    ensures
        count_in(pieces, piece, n) <= if n < 0 { 0 } else { n },
    decreases n,
{
    if n > 0 {
        lemma_count_in_bound(pieces, piece, n - 1);
    }
}

/// The piece mask of one piece type agrees with what a square holds
pub open spec fn mask_agrees(mask: BoardMask, piece_type: PieceType, i: int, value: Option<SidedPiece>) -> bool {
    mask.has(i) == (value matches Some(sp) && sp.piece_type == piece_type)
}

impl Board {
    /// The type of the piece on the square with board index `i`, if any
    pub open spec fn piece_type_at(&self, i: int) -> Option<PieceType> {
        self.piece_squares.items()[i]
    }

    /// The piece (with its owner) on the square with board index `i`, if any
    pub open spec fn sided_piece_at(&self, i: int) -> Option<SidedPiece> {
        match self.piece_type_at(i) {
            Some(piece_type) => Some(SidedPiece {
                piece_type,
                player: if self.side_masks.at(Player::White).has(i) { Player::White } else { Player::Black },
            }),
            None => None,
        }
    }

    /// The pieces of the board, by square index
    pub open spec fn pieces(&self) -> Seq<Option<SidedPiece>> {
        Seq::new(64, |i: int| self.sided_piece_at(i))
    }

    /// Every representation of the board says that the square with board index `i` holds `value`
    pub open spec fn encodes_square(&self, i: int, value: Option<SidedPiece>) -> bool {
        &&& self.piece_type_at(i) == (match value {
            Some(sp) => Some(sp.piece_type),
            None => None,
        })
        &&& mask_agrees(self.piece_masks.at(PieceType::Pawn), PieceType::Pawn, i, value)
        &&& mask_agrees(self.piece_masks.at(PieceType::Knight), PieceType::Knight, i, value)
        &&& mask_agrees(self.piece_masks.at(PieceType::Bishop), PieceType::Bishop, i, value)
        &&& mask_agrees(self.piece_masks.at(PieceType::Rook), PieceType::Rook, i, value)
        &&& mask_agrees(self.piece_masks.at(PieceType::Queen), PieceType::Queen, i, value)
        &&& mask_agrees(self.piece_masks.at(PieceType::King), PieceType::King, i, value)
        &&& self.side_masks.at(Player::White).has(i) == (value matches Some(sp) && sp.player == Player::White)
        &&& self.side_masks.at(Player::Black).has(i) == (value matches Some(sp) && sp.player == Player::Black)
    }

    /// The square list, the piece masks and the side masks describe the same pieces
    pub open spec fn masks_wf(&self) -> bool {
        forall|i: int| 0 <= i < 64 ==> #[trigger] self.encodes_square(i, self.sided_piece_at(i))
    }

    /// The board is well formed: its representations agree and the piece counts count the pieces
    pub open spec fn wf(&self) -> bool {
        &&& self.masks_wf()
        &&& forall|piece: SidedPiece| #[trigger] self.sided_piece_counts.count(piece) == count_in(self.pieces(), piece, 64)
    }

    /// A board whose every square encodes a list of pieces has well formed masks, and those pieces
    pub proof fn lemma_encodes(&self, target: Seq<Option<SidedPiece>>)
        requires
            target.len() == 64,
            forall|i: int| 0 <= i < 64 ==> #[trigger] self.encodes_square(i, target[i]),
        ensures
            self.masks_wf(),
            self.pieces() == target,
    {
        assert forall|i: int| 0 <= i < 64 implies self.sided_piece_at(i) == target[i] by {
            assert(self.encodes_square(i, target[i]));
        }
        assert forall|i: int| 0 <= i < 64 implies #[trigger] self.encodes_square(i, self.sided_piece_at(i)) by {
            assert(self.encodes_square(i, target[i]));
        }
        assert(self.pieces() =~= target);
    }

    /// A well formed board encodes its pieces on every square
    pub proof fn lemma_wf_encodes(&self, i: int)
        requires
            self.masks_wf(),
            0 <= i < 64,
        ensures
            self.encodes_square(i, self.pieces()[i]),
            self.pieces()[i] == self.sided_piece_at(i),
    {
    }
}

impl Board {
    /// Place a piece on an empty square of the board
    pub(crate) fn add_piece(&mut self, to: Square, piece: SidedPiece)
        requires
            old(self).wf(),
            old(self).pieces()[sq_index(to)] is None,
        ensures
            placed(*old(self), to, piece, *final(self)),
    {
        let ghost prev = *self;
        proof {
            lemma_square_index_range(to);
            prev.lemma_wf_encodes(sq_index(to));
        }
        let to_mask = to.to_mask();
        *self.piece_squares.mut_square(to) = Some(piece.piece_type);
        let piece_mask = *self.piece_masks.get_piece(piece.piece_type) | to_mask;
        *self.piece_masks.mut_piece(piece.piece_type) = piece_mask;
        let side_mask = *self.side_masks.get_side(piece.player) | to_mask;
        *self.side_masks.mut_side(piece.player) = side_mask;
        self.hasher.toggle_piece_square(to, piece);
        self.sided_piece_counts.add_piece(piece);
        proof {
            let idx = sq_index(to);
            let target = prev.pieces().update(idx, Some(piece));
            prev.piece_squares.lemma_len();
            prev.piece_masks.lemma_len();
            prev.side_masks.lemma_len();
            assert forall|i: int| 0 <= i < 64 implies #[trigger] self.encodes_square(i, target[i]) by {
                prev.lemma_wf_encodes(i);
                lemma_mask_with(prev.piece_masks.at(piece.piece_type), idx, i);
                lemma_mask_with(prev.side_masks.at(piece.player), idx, i);
            }
            self.lemma_encodes(target);
            assert forall|sp: SidedPiece| #[trigger] self.sided_piece_counts.count(sp) == count_in(self.pieces(), sp, 64) by {
                lemma_count_in_update(prev.pieces(), idx, Some(piece), sp, 64);
                lemma_count_in_bound(prev.pieces(), sp, 64);
            }
        }
    }
}

impl Board {
    /// Clear a piece from its square
    pub(crate) fn remove_piece(&mut self, from: Square, piece: SidedPiece)
        requires
            old(self).wf(),
            old(self).pieces()[sq_index(from)] == Some(piece),
        ensures
            lifted(*old(self), from, piece, *final(self)),
    {
        let ghost prev = *self;
        proof {
            lemma_square_index_range(from);
            prev.lemma_wf_encodes(sq_index(from));
        }
        let from_mask = from.to_mask();
        *self.piece_squares.mut_square(from) = None;
        let piece_mask = *self.piece_masks.get_piece(piece.piece_type) ^ from_mask;
        *self.piece_masks.mut_piece(piece.piece_type) = piece_mask;
        let side_mask = *self.side_masks.get_side(piece.player) ^ from_mask;
        *self.side_masks.mut_side(piece.player) = side_mask;
        self.hasher.toggle_piece_square(from, piece);
        self.sided_piece_counts.remove_piece(piece);
        proof {
            let idx = sq_index(from);
            let target = prev.pieces().update(idx, None);
            prev.piece_squares.lemma_len();
            prev.piece_masks.lemma_len();
            prev.side_masks.lemma_len();
            assert forall|i: int| 0 <= i < 64 implies #[trigger] self.encodes_square(i, target[i]) by {
                prev.lemma_wf_encodes(i);
                prev.lemma_wf_encodes(idx);
                lemma_mask_with(prev.piece_masks.at(piece.piece_type), idx, i);
                lemma_mask_with(prev.side_masks.at(piece.player), idx, i);
            }
            self.lemma_encodes(target);
            assert forall|sp: SidedPiece| #[trigger] self.sided_piece_counts.count(sp) == count_in(self.pieces(), sp, 64) by {
                lemma_count_in_update(prev.pieces(), idx, None, sp, 64);
            }
        }
    }

    /// Move a piece from its square to an empty square
    pub(crate) fn move_piece(&mut self, from: Square, to: Square, piece: SidedPiece)
        requires
            old(self).wf(),
            old(self).pieces()[sq_index(from)] == Some(piece),
            old(self).pieces()[sq_index(to)] is None,
        ensures
            moved(*old(self), from, to, piece, *final(self)),
    {
        let ghost prev = *self;
        proof {
            lemma_square_index_range(from);
            lemma_square_index_range(to);
            prev.lemma_wf_encodes(sq_index(to));
            prev.lemma_wf_encodes(sq_index(from));
        }
        let to_mask = to.to_mask();
        let from_mask = from.to_mask();
        let from_to_mask = from_mask | to_mask;
        *self.piece_squares.mut_square(from) = None;
        *self.piece_squares.mut_square(to) = Some(piece.piece_type);
        let piece_mask = *self.piece_masks.get_piece(piece.piece_type) ^ from_to_mask;
        *self.piece_masks.mut_piece(piece.piece_type) = piece_mask;
        let side_mask = *self.side_masks.get_side(piece.player) ^ from_to_mask;
        *self.side_masks.mut_side(piece.player) = side_mask;
        self.hasher.toggle_piece_square(from, piece);
        self.hasher.toggle_piece_square(to, piece);
        proof {
            let (f, t) = (sq_index(from), sq_index(to));
            let mid = prev.pieces().update(f, None);
            let target = mid.update(t, Some(piece));
            prev.piece_squares.lemma_len();
            prev.piece_masks.lemma_len();
            prev.side_masks.lemma_len();
            assert forall|i: int| 0 <= i < 64 implies #[trigger] self.encodes_square(i, target[i]) by {
                prev.lemma_wf_encodes(i);
                prev.lemma_wf_encodes(f);
                lemma_move_masks(prev.piece_masks.at(piece.piece_type), f, t, i);
                lemma_move_masks(prev.side_masks.at(piece.player), f, t, i);
            }
            self.lemma_encodes(target);
            assert forall|sp: SidedPiece| #[trigger] self.sided_piece_counts.count(sp) == count_in(self.pieces(), sp, 64) by {
                lemma_count_in_update(prev.pieces(), f, None, sp, 64);
                lemma_count_in_update(mid, t, Some(piece), sp, 64);
            }
        }
    }
}

/// Toggling the bits of two distinct squares changes the mask on those squares only
proof fn lemma_move_masks(mask: BoardMask, f: int, t: int, j: int)
    requires
        0 <= f < 64,
        0 <= t < 64,
        0 <= j < 64,
        f != t,
    ensures
        BoardMask(mask.0 ^ ((1u64 << (f as u64)) | (1u64 << (t as u64)))).has(j) == (mask.has(j) != (j == f || j == t)),
{
    let (a, b) = (1u64 << (f as u64), 1u64 << (t as u64));
    lemma_bit_ops(mask.0, a | b, j);
    lemma_bit_ops(a, b, j);
    lemma_single_bit(f, j);
    lemma_single_bit(t, j);
}

/// `after` is the well formed board `before` with `piece` placed on `to`, the hash keeping track
pub open spec fn placed(before: Board, to: Square, piece: SidedPiece, after: Board) -> bool {
    &&& after.wf()
    &&& after.pieces() == before.pieces().update(sq_index(to), Some(piece))
    &&& after.hasher.value() == before.hasher.value() ^ spec_piece_square_key(to, piece)
    &&& after.side_to_move == before.side_to_move
    &&& after.halfmove_count == before.halfmove_count
    &&& after.state == before.state
}

/// `after` is the well formed board `before` with `piece` lifted off `from`, the hash keeping track
pub open spec fn lifted(before: Board, from: Square, piece: SidedPiece, after: Board) -> bool {
    &&& after.wf()
    &&& after.pieces() == before.pieces().update(sq_index(from), None)
    &&& after.hasher.value() == before.hasher.value() ^ spec_piece_square_key(from, piece)
    &&& after.side_to_move == before.side_to_move
    &&& after.halfmove_count == before.halfmove_count
    &&& after.state == before.state
}

/// `after` is the well formed board `before` with `piece` moved from `from` to `to`, the hash keeping track
pub open spec fn moved(before: Board, from: Square, to: Square, piece: SidedPiece, after: Board) -> bool {
    &&& after.wf()
    &&& after.pieces() == before.pieces().update(sq_index(from), None).update(sq_index(to), Some(piece))
    &&& after.hasher.value() == before.hasher.value() ^ spec_piece_square_key(from, piece) ^ spec_piece_square_key(
        to,
        piece,
    )
    &&& after.side_to_move == before.side_to_move
    &&& after.halfmove_count == before.halfmove_count
    &&& after.state == before.state
}

/// `after` is `before` with the other player to move, the hash keeping track, and all else alike
pub open spec fn switched(before: Board, after: Board) -> bool {
    &&& after.side_to_move == before.side_to_move.other()
    &&& after.hasher.value() == before.hasher.value() ^ spec_side_key()
    &&& after.piece_squares == before.piece_squares
    &&& after.piece_masks == before.piece_masks
    &&& after.side_masks == before.side_masks
    &&& after.sided_piece_counts == before.sided_piece_counts
    &&& after.halfmove_count == before.halfmove_count
    &&& after.state == before.state
}

/// Switching the side to move twice gives the board back
pub proof fn lemma_switch_sides_twice(before: Board, once: Board, twice: Board)
    requires
        switched(before, once),
        switched(once, twice),
    ensures
        twice == before,
{
    crate::player::lemma_switch_involutive(before.side_to_move);
    let (h, k) = (before.hasher.value(), spec_side_key());
    assert((h ^ k) ^ k == h) by (bit_vector);
    ZobristHasher::lemma_ext(twice.hasher, before.hasher);
}

/// Placing a piece on an empty square and lifting it off again gives the board back
pub proof fn lemma_place_then_lift(before: Board, square: Square, piece: SidedPiece, with_piece: Board, after: Board)
    requires
        before.wf(),
        before.pieces()[sq_index(square)] is None,
        placed(before, square, piece, with_piece),
        lifted(with_piece, square, piece, after),
    ensures
        after == before,
{
    lemma_square_index_range(square);
    assert(after.pieces() =~= before.pieces());
    let (h, k) = (before.hasher.value(), spec_piece_square_key(square, piece));
    assert((h ^ k) ^ k == h) by (bit_vector);
    lemma_wf_boards_equal(after, before);
}

/// Moving a piece and moving it back gives the board back
pub proof fn lemma_move_then_move_back(
    before: Board,
    from: Square,
    to: Square,
    piece: SidedPiece,
    with_move: Board,
    after: Board,
)
    requires
        before.wf(),
        before.pieces()[sq_index(from)] == Some(piece),
        before.pieces()[sq_index(to)] is None,
        moved(before, from, to, piece, with_move),
        moved(with_move, to, from, piece, after),
    ensures
        after == before,
{
    lemma_square_index_range(from);
    lemma_square_index_range(to);
    assert(after.pieces() =~= before.pieces());
    let (h, f, t) = (before.hasher.value(), spec_piece_square_key(from, piece), spec_piece_square_key(to, piece));
    assert(((((h ^ f) ^ t) ^ t) ^ f) == h) by (bit_vector);
    lemma_wf_boards_equal(after, before);
}

/// The lowest square of a mask, if the mask has any
pub open spec fn lowest_square(mask: BoardMask) -> Option<Square> {
    if exists|i: int| #[trigger] mask.has(i) {
        Some(square_at(choose|i: int| #[trigger] mask.has(i) && forall|j: int| 0 <= j < i ==> !mask.has(j)))
    } else {
        None
    }
}

/// The piece type listed first whose mask holds a square, if any
pub open spec fn first_piece_on(board: Board, i: int) -> Option<PieceType> {
    if board.piece_masks.at(PieceType::Pawn).has(i) {
        Some(PieceType::Pawn)
    } else if board.piece_masks.at(PieceType::Knight).has(i) {
        Some(PieceType::Knight)
    } else if board.piece_masks.at(PieceType::Bishop).has(i) {
        Some(PieceType::Bishop)
    } else if board.piece_masks.at(PieceType::Rook).has(i) {
        Some(PieceType::Rook)
    } else if board.piece_masks.at(PieceType::Queen).has(i) {
        Some(PieceType::Queen)
    } else if board.piece_masks.at(PieceType::King).has(i) {
        Some(PieceType::King)
    } else {
        None
    }
}

impl Board {
    /// The mask of a player's pieces
    pub open spec fn spec_side_mask(&self, side: Player) -> BoardMask {
        self.side_masks.at(side)
    }

    /// The mask of the pieces of a type, for both players
    pub open spec fn spec_piece_mask(&self, piece: PieceType) -> BoardMask {
        self.piece_masks.at(piece)
    }

    /// The occupied squares
    pub open spec fn spec_occupied(&self) -> BoardMask {
        BoardMask(self.side_masks.at(Player::White).0 | self.side_masks.at(Player::Black).0)
    }

    /// The mask of a player's king(s)
    pub open spec fn spec_king_mask(&self, side: Player) -> BoardMask {
        BoardMask(self.piece_masks.at(PieceType::King).0 & self.side_masks.at(side).0)
    }

    /// The square of a player's king: the lowest square holding a king of that player, if any
    pub open spec fn spec_king_square(&self, side: Player) -> Option<Square> {
        lowest_square(self.spec_king_mask(side))
    }

    /// Switch the side to move to the next player
    pub fn switch_sides(&mut self)
        ensures
            switched(*old(self), *final(self)),
    {
        self.side_to_move = self.side_to_move.switch();
        self.hasher.switch_sides();
    }

    /// Get the player who's turn it is to move
    pub fn side_to_move(&self) -> (res: Player)
        ensures
            res == self.side_to_move,
    {
        self.side_to_move
    }

    /// Get the current fullmove the game has been played to
    pub fn fullmove_count(&self) -> (res: PlyCount)
        ensures
            res == self.halfmove_count / 2,
    {
        self.halfmove_count / 2
    }

    /// Get a mask of the occupied squares for a given side
    pub fn side_mask(&self, side: Player) -> (res: BoardMask)
        ensures
            res == self.spec_side_mask(side),
    {
        *self.side_masks.get_side(side)
    }

    /// Get a mask of the squares with specific pieces placed on them
    pub fn piece_mask(&self, piece: PieceType) -> (res: BoardMask)
        ensures
            res == self.spec_piece_mask(piece),
    {
        *self.piece_masks.get_piece(piece)
    }

    /// Get a mask of the squares with multiple types of pieces placed on them
    pub fn pieces_mask<const N: usize>(&self, pieces: [PieceType; N]) -> (res: BoardMask)
        ensures
            forall|i: int| 0 <= i < 64 ==> #[trigger] res.has(i) == exists|k: int|
                0 <= k < N && #[trigger] self.spec_piece_mask(pieces@[k]).has(i),
    {
        let mut pieces_mask = BoardMask::empty();
        let mut piece_index: usize = 0;
        while piece_index < N
            invariant
                piece_index <= N,
                N == pieces@.len(),
                forall|i: int| 0 <= i < 64 ==> #[trigger] pieces_mask.has(i) == exists|k: int|
                    0 <= k < piece_index && #[trigger] self.spec_piece_mask(pieces@[k]).has(i),
            decreases N - piece_index,
        {
            let ghost prev = pieces_mask;
            let piece = pieces[piece_index];
            let next = *self.piece_masks.get_piece(piece);
            pieces_mask = pieces_mask | next;
            proof {
                assert(piece == pieces@[piece_index as int]);
                assert(pieces_mask.0 == prev.0 | next.0);
                assert forall|i: int| 0 <= i < 64 implies #[trigger] pieces_mask.has(i) == exists|k: int|
                    0 <= k < piece_index + 1 && #[trigger] self.spec_piece_mask(pieces@[k]).has(i) by {
                    let latest = self.spec_piece_mask(pieces@[piece_index as int]);
                    lemma_bit_ops(prev.0, latest.0, i);
                    assert(prev.has(i) == exists|k: int| 0 <= k < piece_index && #[trigger] self.spec_piece_mask(pieces@[k]).has(i));
                    assert(pieces_mask.has(i) == (prev.has(i) || latest.has(i)));
                    if exists|k: int| 0 <= k < piece_index + 1 && #[trigger] self.spec_piece_mask(pieces@[k]).has(i) {
                        let k = choose|k: int| 0 <= k < piece_index + 1 && #[trigger] self.spec_piece_mask(pieces@[k]).has(i);
                        if k < piece_index {
                            assert(0 <= k < piece_index && self.spec_piece_mask(pieces@[k]).has(i));
                        }
                    }
                    if latest.has(i) {
                        assert(0 <= piece_index < piece_index + 1 && self.spec_piece_mask(pieces@[piece_index as int]).has(i));
                    }
                }
            }
            piece_index += 1;
        }
        pieces_mask
    }

    /// Get a mask of all occupied squares on the board
    pub fn occupied(&self) -> (res: BoardMask)
        ensures
            res == self.spec_occupied(),
            forall|i: int| 0 <= i < 64 ==> #[trigger] res.has(i) == (self.spec_side_mask(Player::White).has(i)
                || self.spec_side_mask(Player::Black).has(i)),
    {
        let res = self.side_mask(Player::White) | self.side_mask(Player::Black);
        proof {
            assert forall|i: int| 0 <= i < 64 implies #[trigger] res.has(i) == (self.spec_side_mask(Player::White).has(i)
                || self.spec_side_mask(Player::Black).has(i)) by {
                lemma_bit_ops(self.spec_side_mask(Player::White).0, self.spec_side_mask(Player::Black).0, i);
            }
        }
        res
    }

    /// The computed Zobrist hash key
    pub fn zobrist_key(&self) -> (res: ZobristInner)
        ensures
            res == self.hasher.value(),
    {
        self.hasher.finish()
    }

    /// Get the piece, if any, for a given square: the first piece type whose mask holds the square
    pub fn piece_on(&self, square: Square) -> (res: Option<PieceType>)
        ensures
            res == first_piece_on(*self, sq_index(square)),
            self.masks_wf() ==> res == self.piece_type_at(sq_index(square)),
    {
        proof {
            lemma_square_index_range(square);
            if self.masks_wf() {
                self.lemma_wf_encodes(sq_index(square));
            }
        }
        if self.piece_mask(PieceType::Pawn).has_square(square) {
            Some(PieceType::Pawn)
        } else if self.piece_mask(PieceType::Knight).has_square(square) {
            Some(PieceType::Knight)
        } else if self.piece_mask(PieceType::Bishop).has_square(square) {
            Some(PieceType::Bishop)
        } else if self.piece_mask(PieceType::Rook).has_square(square) {
            Some(PieceType::Rook)
        } else if self.piece_mask(PieceType::Queen).has_square(square) {
            Some(PieceType::Queen)
        } else if self.piece_mask(PieceType::King).has_square(square) {
            Some(PieceType::King)
        } else {
            None
        }
    }

    /// Get the side, if any, for a given square: white when white's mask holds the square, else black when black's does
    pub fn side_on(&self, square: Square) -> (res: Option<Player>)
        ensures
            res == (if self.spec_side_mask(Player::White).contains(square) {
                Some(Player::White)
            } else if self.spec_side_mask(Player::Black).contains(square) {
                Some(Player::Black)
            } else {
                None
            }),
            self.masks_wf() ==> res == (match self.sided_piece_at(sq_index(square)) {
                Some(sp) => Some(sp.player),
                None => None,
            }),
    {
        proof {
            lemma_square_index_range(square);
            if self.masks_wf() {
                self.lemma_wf_encodes(sq_index(square));
            }
        }
        if self.side_mask(Player::White).has_square(square) {
            Some(Player::White)
        } else if self.side_mask(Player::Black).has_square(square) {
            Some(Player::Black)
        } else {
            None
        }
    }

    /// Get the square that a player's king resides on (the lowest, were there several)
    pub fn king_square(&self, side: Player) -> (res: Option<Square>)
        ensures
            res == self.spec_king_square(side),
    {
        let mut king_mask = self.piece_mask(PieceType::King) & self.side_mask(side);
        let ghost mask = king_mask;
        let res = king_mask.pop_square();
        proof {
            lemma_lowest_square(mask, res);
        }
        res
    }

    /// If the current player is in check
    pub fn in_check(&self) -> (res: bool)
        ensures
            res == (self.state.checkers.0 != 0),
    {
        !self.state.checkers.is_empty()
    }

    /// Mask of pieces giving the current player check
    pub fn checkers(&self) -> (res: BoardMask)
        ensures
            res == self.state.checkers,
    {
        self.state.checkers
    }
}

/// The piece type starting on a file of a back rank
pub open spec fn back_rank_piece(file: int) -> PieceType {
    if file == 0 || file == 7 {
        PieceType::Rook
    } else if file == 1 || file == 6 {
        PieceType::Knight
    } else if file == 2 || file == 5 {
        PieceType::Bishop
    } else if file == 3 {
        PieceType::Queen
    } else {
        PieceType::King
    }
}

/// The piece on the square with board index `i` in the classical starting position
pub open spec fn spec_starting_piece(i: int) -> Option<SidedPiece> {
    let rank = i / 8;
    let file = i % 8;
    if rank == 0 {
        Some(SidedPiece { piece_type: back_rank_piece(file), player: Player::White })
    } else if rank == 1 {
        Some(SidedPiece { piece_type: PieceType::Pawn, player: Player::White })
    } else if rank == 6 {
        Some(SidedPiece { piece_type: PieceType::Pawn, player: Player::Black })
    } else if rank == 7 {
        Some(SidedPiece { piece_type: back_rank_piece(file), player: Player::Black })
    } else {
        None
    }
}

/// The pieces of the starting position placed on the first `files` files
pub open spec fn starting_pieces_up_to(files: int) -> Seq<Option<SidedPiece>> {
    Seq::new(64, |i: int| if i % 8 < files { spec_starting_piece(i) } else { None })
}

/// No piece is counted on an empty board
proof fn lemma_count_in_empty(piece: SidedPiece, n: int)
    requires
        n <= 64,
    ensures
        count_in(Seq::new(64, |i: int| None::<SidedPiece>), piece, n) == 0,
    decreases n,
{
    if n > 0 {
        lemma_count_in_empty(piece, n - 1);
    }
}

impl Board {
    /// Empty (illegal because no kings), starting position with white to move
    pub fn empty_position() -> (res: Self)
        ensures
            res.wf(),
            res.pieces() == Seq::new(64, |i: int| None::<SidedPiece>),
            res.side_to_move == Player::White,
            res.halfmove_count == 0,
            res.state.is_initial(),
            res.hasher.value() == zobrist::EMPTY_ZOBRIST_KEY,
            res.hash_matches(),
    {
        let res = Self {
            piece_squares: BySquare::new(None),
            piece_masks: ByPieceType::new(BoardMask::empty()),
            side_masks: ByPlayer::new(BoardMask::empty()),
            side_to_move: Player::White,
            state: State::empty(),
            halfmove_count: 0,
            hasher: ZobristHasher::empty(),
            sided_piece_counts: SidedPieceCounts::empty(),
        };
        proof {
            let target = Seq::new(64, |i: int| None::<SidedPiece>);
            assert forall|i: int| 0 <= i < 64 implies #[trigger] res.encodes_square(i, target[i]) by {
                lemma_bit_ops(0u64, 0u64, i);
            }
            res.lemma_encodes(target);
            assert forall|piece: SidedPiece| #[trigger] res.sided_piece_counts.count(piece) == count_in(res.pieces(), piece, 64) by {
                lemma_count_in_empty(piece, 64);
            }
            position_hash::lemma_empty_hash(res);
        }
        res
    }

    /// Classical chess starting position with white to move
    #[verifier::spinoff_prover]
    pub fn starting_position() -> (res: Self)
        ensures
            res.wf(),
            res.pieces() == Seq::new(64, |i: int| spec_starting_piece(i)),
            res.side_to_move == Player::White,
            res.halfmove_count == 0,
            res.state.castles.spec_rights() == CastleRights::All,
            res.state.castles.has_standard_squares(),
            !res.state.castles.spec_is_chess_960(),
            res.state.captured_piece is None,
            res.state.en_passant_square is None,
            res.state.halfmove_clock == 0,
            res.state.checkers.0 == 0,
            checks::move_gen_masks_match(res),
            res.state.check_squares.at(PieceType::King).0 == 0,
            res.hash_matches(),
    {
        let mut board = Self::empty_position();
        let back_rank = [
            PieceType::Rook,
            PieceType::Knight,
            PieceType::Bishop,
            PieceType::Queen,
            PieceType::King,
            PieceType::Bishop,
            PieceType::Knight,
            PieceType::Rook,
        ];
        proof {
            assert(board.pieces() =~= starting_pieces_up_to(0));
        }
        let mut file: usize = 0;
        while file < 8
            invariant
                file <= 8,
                board.wf(),
                board.pieces() == starting_pieces_up_to(file as int),
                board.side_to_move == Player::White,
                board.halfmove_count == 0,
                board.state.is_initial(),
                board.hash_matches(),
                forall|f: int| 0 <= f < 8 ==> #[trigger] back_rank@[f] == back_rank_piece(f),
            decreases 8 - file,
        {
            let piece_type = back_rank[file];
            let ghost before = board.pieces();
            let white_back = Square::SQUARES[file];
            let white_pawn = Square::SQUARES[8 + file];
            let black_pawn = Square::SQUARES[48 + file];
            let black_back = Square::SQUARES[56 + file];
            proof {
                lemma_index_square_at(file as int);
                lemma_index_square_at(8 + file);
                lemma_index_square_at(48 + file);
                lemma_index_square_at(56 + file);
            }
            let ghost b0 = board;
            board.add_piece(white_back, SidedPiece::new(piece_type, Player::White));
            let ghost b1 = board;
            board.add_piece(white_pawn, SidedPiece::new(PieceType::Pawn, Player::White));
            let ghost b2 = board;
            board.add_piece(black_pawn, SidedPiece::new(PieceType::Pawn, Player::Black));
            let ghost b3 = board;
            board.add_piece(black_back, SidedPiece::new(piece_type, Player::Black));
            proof {
                position_hash::lemma_place_keeps_hash(b0, b1, white_back, SidedPiece { piece_type, player: Player::White });
                position_hash::lemma_place_keeps_hash(b1, b2, white_pawn, SidedPiece { piece_type: PieceType::Pawn, player: Player::White });
                position_hash::lemma_place_keeps_hash(b2, b3, black_pawn, SidedPiece { piece_type: PieceType::Pawn, player: Player::Black });
                position_hash::lemma_place_keeps_hash(b3, board, black_back, SidedPiece { piece_type, player: Player::Black });
            }
            proof {
                assert(board.pieces() =~= starting_pieces_up_to(file + 1));
            }
            file += 1;
        }
        proof {
            assert(board.pieces() =~= Seq::new(64, |i: int| spec_starting_piece(i)));
        }
        let ghost before = board;
        board.state.set_castle_rights(CastleRights::All);
        let ghost with_rights = board;
        board.update_move_gen_masks();
        let ghost with_masks = board;
        // Toggle the keys of the castle rights into the hash
        board.toggle_state_keys();
        proof {
            lemma_same_pieces(before, with_rights);
            lemma_same_pieces(with_rights, with_masks);
            lemma_same_pieces(with_masks, board);
            checks::lemma_masks_frame(with_masks, board);
            position_hash::lemma_initial_state_keys(before.state);
            zobrist::lemma_toggle_zero(position_hash::placement_hash(before.pieces(), before.side_to_move));
            position_hash::lemma_state_keys_complete_hash(with_masks, board);
        }
        board
    }
}

/// Boards that share their pieces, masks and counts are alike well formed, with the same pieces
pub proof fn lemma_same_pieces(a: Board, b: Board)
    requires
        a.piece_squares == b.piece_squares,
        a.piece_masks == b.piece_masks,
        a.side_masks == b.side_masks,
        a.sided_piece_counts == b.sided_piece_counts,
    ensures
        a.pieces() == b.pieces(),
        a.wf() == b.wf(),
{
    assert(a.pieces() =~= b.pieces());
    if a.wf() {
        assert forall|i: int| 0 <= i < 64 implies #[trigger] b.encodes_square(i, b.sided_piece_at(i)) by {
            assert(a.encodes_square(i, a.sided_piece_at(i)));
        }
    }
    if b.wf() {
        assert forall|i: int| 0 <= i < 64 implies #[trigger] a.encodes_square(i, a.sided_piece_at(i)) by {
            assert(b.encodes_square(i, b.sided_piece_at(i)));
        }
    }
}

/// Two well formed boards with the same pieces, side to move, move count, state and hash are equal
pub proof fn lemma_wf_boards_equal(a: Board, b: Board)
    requires
        a.wf(),
        b.wf(),
        a.pieces() == b.pieces(),
        a.side_to_move == b.side_to_move,
        a.halfmove_count == b.halfmove_count,
        a.state == b.state,
        a.hasher.value() == b.hasher.value(),
    ensures
        a == b,
{
    a.piece_squares.lemma_len();
    b.piece_squares.lemma_len();
    assert forall|i: int| 0 <= i < 64 implies a.piece_squares.items()[i] == b.piece_squares.items()[i] by {
        a.lemma_wf_encodes(i);
        b.lemma_wf_encodes(i);
    }
    assert(a.piece_squares.items() =~= b.piece_squares.items());
    BySquare::lemma_ext(a.piece_squares, b.piece_squares);
    assert forall|piece: PieceType| #[trigger] a.piece_masks.at(piece) == b.piece_masks.at(piece) by {
        assert forall|i: int| 0 <= i < 64 implies a.piece_masks.at(piece).has(i) == b.piece_masks.at(piece).has(i) by {
            a.lemma_wf_encodes(i);
            b.lemma_wf_encodes(i);
        }
        lemma_mask_ext(a.piece_masks.at(piece), b.piece_masks.at(piece));
    }
    ByPieceType::lemma_ext(a.piece_masks, b.piece_masks);
    assert forall|player: Player| #[trigger] a.side_masks.at(player) == b.side_masks.at(player) by {
        assert forall|i: int| 0 <= i < 64 implies a.side_masks.at(player).has(i) == b.side_masks.at(player).has(i) by {
            a.lemma_wf_encodes(i);
            b.lemma_wf_encodes(i);
        }
        lemma_mask_ext(a.side_masks.at(player), b.side_masks.at(player));
    }
    ByPlayer::lemma_ext(a.side_masks, b.side_masks);
    assert forall|piece: SidedPiece| #[trigger] a.sided_piece_counts.count(piece) == b.sided_piece_counts.count(piece) by {}
    SidedPieceCounts::lemma_ext(a.sided_piece_counts, b.sided_piece_counts);
    ZobristHasher::lemma_ext(a.hasher, b.hasher);
}

/// What popping the lowest square of a mask gives is its lowest square
pub proof fn lemma_lowest_square(mask: BoardMask, popped: Option<Square>)
    requires
        popped is None ==> mask.0 == 0,
        popped matches Some(sq) ==> mask.contains(sq) && forall|i: int| 0 <= i < sq_index(sq) ==> !mask.has(i),
    ensures
        popped == lowest_square(mask),
{
    match popped {
        Some(sq) => {
            let w = sq_index(sq);
            assert(mask.has(w));
            let c = choose|i: int| #[trigger] mask.has(i) && forall|j: int| 0 <= j < i ==> !mask.has(j);
            assert(mask.has(c) && forall|j: int| 0 <= j < c ==> !mask.has(j));
            if c < w {
                assert(!mask.has(c));
            } else if w < c {
                assert(!mask.has(w));
            }
            lemma_square_at_index(sq);
        },
        None => {
            assert forall|i: int| !#[trigger] mask.has(i) by {
                if 0 <= i < 64 {
                    lemma_bit_ops(mask.0, mask.0, i);
                }
            }
        },
    }
}

/// Setting or toggling the bit of one square changes the mask on that square only
proof fn lemma_mask_with(mask: BoardMask, idx: int, j: int)
    requires
        0 <= idx < 64,
        0 <= j < 64,
    ensures
        BoardMask(mask.0 | (1u64 << (idx as u64))).has(j) == (mask.has(j) || j == idx),
        BoardMask(mask.0 ^ (1u64 << (idx as u64))).has(j) == (mask.has(j) != (j == idx)),
{
    lemma_bit_ops(mask.0, 1u64 << (idx as u64), j);
    lemma_single_bit(idx, j);
}

} // verus!
