use vstd::prelude::*;

use crate::bitboard::{
    cardinal_attacked, count_bits, king_attacked, knight_attacked, lemma_bit_ops, lemma_count_bits_clear,
    lemma_single_bit, on_line, ordinal_attacked, pawn_attacked, pseudo_attacked, sliding_piece_attacked, strictly_between, BoardMask,
};
use crate::bitboard::symmetry::{lemma_cardinal_symmetric, lemma_knight_symmetric, lemma_ordinal_symmetric, lemma_pawn_symmetric};
use crate::board::{Board, State};
use crate::castles::{spec_rook_to_square, CastleDirection};
use crate::chess_move::ChessMove;
use crate::move_type::MoveType;
use crate::promotion_piece_type::PromotionPieceType;
use crate::piece_type::{NonPawnPieceType, PieceType, SlidingPieceType};
use crate::player::{player_index, Player};
use crate::square::{lemma_square_index_range, sq_index, Square};

verus! {

/// A piece (of either side) on board index `i` attacks `square`, with the `occupied` squares blocking sliders
pub open spec fn attacks_square(board: Board, square: Square, occupied: BoardMask, i: int) -> bool {
    let target = BoardMask::single(sq_index(square));
    let pieces_has = |piece: PieceType| board.spec_piece_mask(piece).has(i);
    ||| pieces_has(PieceType::Pawn) && board.spec_side_mask(Player::White).has(i) && pawn_attacked(target, Player::Black, i)
    ||| pieces_has(PieceType::Pawn) && board.spec_side_mask(Player::Black).has(i) && pawn_attacked(target, Player::White, i)
    ||| pieces_has(PieceType::Knight) && knight_attacked(target, i)
    ||| (pieces_has(PieceType::Rook) || pieces_has(PieceType::Queen)) && cardinal_attacked(target, occupied, i)
    ||| (pieces_has(PieceType::Bishop) || pieces_has(PieceType::Queen)) && ordinal_attacked(target, occupied, i)
    ||| pieces_has(PieceType::King) && king_attacked(target, i)
}

impl Board {
    /// Compute a mask of attackers for all sides that can target a given square, given a set of blockers
    #[verifier::spinoff_prover]
    pub fn attackers_to(&self, square: Square, occupied: BoardMask) -> (res: BoardMask)
        ensures
            forall|i: int| 0 <= i < 64 ==> #[trigger] res.has(i) == attacks_square(*self, square, occupied, i),
    {
        let square_mask = square.to_mask();

        let pawns = self.piece_mask(PieceType::Pawn);
        let white_pawns = pawns & self.side_mask(Player::White);
        let black_pawns = pawns & self.side_mask(Player::Black);
        let knights = self.piece_mask(PieceType::Knight);
        let queens = self.piece_mask(PieceType::Queen);
        let rooks_and_queens = self.piece_mask(PieceType::Rook) | queens;
        let bishops_and_queens = self.piece_mask(PieceType::Bishop) | queens;
        let kings = self.piece_mask(PieceType::King);

        let pawn_black = square_mask.pawn_attacks(Player::Black);
        let pawn_white = square_mask.pawn_attacks(Player::White);
        let knight = square_mask.knight_attacks();
        let cardinal = square_mask.cardinal_sliding_attacks(occupied);
        let ordinal = square_mask.ordinal_sliding_attacks(occupied);
        let king = square_mask.king_attacks();

        let white_pawn_attacks = pawn_black & white_pawns;
        let black_pawn_attacks = pawn_white & black_pawns;
        let knight_attacks = knight & knights;
        let rook_attacks = cardinal & rooks_and_queens;
        let bishop_attacks = ordinal & bishops_and_queens;
        let king_attacks = king & kings;

        let res = white_pawn_attacks | black_pawn_attacks | knight_attacks | rook_attacks | bishop_attacks | king_attacks;
        proof {
            assert forall|i: int| 0 <= i < 64 implies #[trigger] res.has(i) == attacks_square(*self, square, occupied, i) by {
                lemma_bit_ops(pawns.0, self.spec_side_mask(Player::White).0, i);
                lemma_bit_ops(pawns.0, self.spec_side_mask(Player::Black).0, i);
                lemma_bit_ops(self.spec_piece_mask(PieceType::Rook).0, queens.0, i);
                lemma_bit_ops(self.spec_piece_mask(PieceType::Bishop).0, queens.0, i);
                lemma_bit_ops(pawn_black.0, white_pawns.0, i);
                lemma_bit_ops(pawn_white.0, black_pawns.0, i);
                lemma_bit_ops(knight.0, knights.0, i);
                lemma_bit_ops(cardinal.0, rooks_and_queens.0, i);
                lemma_bit_ops(ordinal.0, bishops_and_queens.0, i);
                lemma_bit_ops(king.0, kings.0, i);
                lemma_bit_ops(white_pawn_attacks.0, black_pawn_attacks.0, i);
                lemma_bit_ops(white_pawn_attacks.0 | black_pawn_attacks.0, knight_attacks.0, i);
                lemma_bit_ops(white_pawn_attacks.0 | black_pawn_attacks.0 | knight_attacks.0, rook_attacks.0, i);
                lemma_bit_ops(white_pawn_attacks.0 | black_pawn_attacks.0 | knight_attacks.0 | rook_attacks.0, bishop_attacks.0, i);
                lemma_bit_ops(white_pawn_attacks.0 | black_pawn_attacks.0 | knight_attacks.0 | rook_attacks.0 | bishop_attacks.0, king_attacks.0, i);
            }
        }
        res
    }
}

/// A piece on board index `q` is a sniper against `side`'s king on `king`: an opposing rook or queen on the
/// king's rank or file, or an opposing bishop or queen on one of the king's diagonals (ignoring what is in between)
pub open spec fn is_sniper(board: Board, side: Player, king: Square, q: int) -> bool {
    let pieces_has = |piece: PieceType| board.spec_piece_mask(piece).has(q);
    &&& board.spec_side_mask(side.other()).has(q)
    &&& {
        ||| (pieces_has(PieceType::Rook) || pieces_has(PieceType::Queen)) && pseudo_attacked(NonPawnPieceType::Rook, king, q)
        ||| (pieces_has(PieceType::Bishop) || pieces_has(PieceType::Queen)) && pseudo_attacked(NonPawnPieceType::Bishop, king, q)
    }
}

/// Board index `i` holds a piece in the way of the sniper on `q`: between the king and the sniper (or the sniper's
/// own square), occupied, and not itself a sniper
pub open spec fn in_the_way(board: Board, side: Player, king: Square, q: int, i: int) -> bool {
    &&& (i == q || strictly_between(sq_index(king), q, i))
    &&& board.spec_occupied().has(i)
    &&& !is_sniper(board, side, king, i)
}

/// How many of the first `n` board indices hold a piece in the way of the sniper on `q`
pub open spec fn in_the_way_count(board: Board, side: Player, king: Square, q: int, n: int) -> nat
    decreases n,
{
    if n <= 0 {
        0
    } else {
        in_the_way_count(board, side, king, q, n - 1) + if in_the_way(board, side, king, q, n - 1) {
            1nat
        } else {
            0nat
        }
    }
}

/// Exactly one piece stands in the way of the sniper on `q`
pub open spec fn has_lone_blocker(board: Board, side: Player, king: Square, q: int) -> bool {
    in_the_way_count(board, side, king, q, 64) == 1
}

/// Board index `i` holds the lone piece between `side`'s king and some sniper
pub open spec fn spec_blocker(board: Board, side: Player, i: int) -> bool {
    match board.spec_king_square(side) {
        Some(king) => exists|q: int|
            0 <= q < 64 && is_sniper(board, side, king, q) && has_lone_blocker(board, side, king, q)
                && #[trigger] in_the_way(board, side, king, q, i),
        None => false,
    }
}

/// Board index `q` holds a sniper pinning a piece of `side`: a sniper whose lone blocker is `side`'s own piece
pub open spec fn spec_pinner(board: Board, side: Player, q: int) -> bool {
    match board.spec_king_square(side) {
        Some(king) => {
            &&& is_sniper(board, side, king, q)
            &&& has_lone_blocker(board, side, king, q)
            &&& forall|i: int| 0 <= i < 64 && #[trigger] in_the_way(board, side, king, q, i)
                ==> !board.spec_side_mask(side.other()).has(i)
        },
        None => false,
    }
}

/// The bits set among the first `n` of a mask are those in the way of a sniper, counted
#[verifier::spinoff_prover]
proof fn lemma_count_in_the_way(board: Board, side: Player, king: Square, q: int, mask: BoardMask, n: nat)
    requires
        n <= 64,
        forall|i: int| 0 <= i < 64 ==> #[trigger] mask.has(i) == in_the_way(board, side, king, q, i),
    ensures
        count_bits(mask.0, n) == in_the_way_count(board, side, king, q, n as int),
    decreases n,
{
    if n > 0 {
        lemma_count_in_the_way(board, side, king, q, mask, (n - 1) as nat);
        assert(mask.has(n - 1) == in_the_way(board, side, king, q, n - 1));
    }
}

impl Board {
    /// Compute the pieces that alone block a sniper from `side`'s king, and the snipers whose lone blocker is `side`'s
    /// own piece; both are empty when `side` has no king
    #[verifier::spinoff_prover]
    pub fn update_blockers_pinners_for_side(&mut self, side: Player)
        ensures
            forall|i: int| 0 <= i < 64 ==> #[trigger] final(self).state.blockers_for.at(side).has(i) == spec_blocker(*old(self), side, i),
            forall|i: int| 0 <= i < 64 ==> #[trigger] final(self).state.pinners_for.at(side).has(i) == spec_pinner(*old(self), side, i),
            final(self).state.blockers_for.at(side.other()) == old(self).state.blockers_for.at(side.other()),
            final(self).state.pinners_for.at(side.other()) == old(self).state.pinners_for.at(side.other()),
            *final(self) == (Board {
                state: State {
                    blockers_for: final(self).state.blockers_for,
                    pinners_for: final(self).state.pinners_for,
                    ..old(self).state
                },
                ..*old(self)
            }),
    {
        let ghost board = *self;
        let (blockers, pinners) = self.compute_blockers_pinners(side);
        let ghost before = self.state;
        *self.state.blockers_for.mut_side(side) = blockers;
        *self.state.pinners_for.mut_side(side) = pinners;
        proof {
            before.blockers_for.lemma_len();
            before.pinners_for.lemma_len();
            assert(player_index(side.other()) != player_index(side));
        }
    }

    #[verifier::spinoff_prover]
    fn compute_blockers_pinners(&self, side: Player) -> (res: (BoardMask, BoardMask))
        ensures
            forall|i: int| 0 <= i < 64 ==> #[trigger] res.0.has(i) == spec_blocker(*self, side, i),
            forall|i: int| 0 <= i < 64 ==> #[trigger] res.1.has(i) == spec_pinner(*self, side, i),
    {
        let king_square = match self.king_square(side) {
            Some(square) => square,
            None => {
                proof {
                    assert forall|i: int| 0 <= i < 64 implies !#[trigger] BoardMask(0u64).has(i) by {
                        lemma_bit_ops(0u64, 0u64, i);
                    }
                }
                return (BoardMask::empty(), BoardMask::empty());
            },
        };
        let attackers = self.side_mask(side.switch());
        let mut blockers = BoardMask::empty();
        let mut pinners = BoardMask::empty();

        // Get all snipers aligned with the king
        let queens = self.piece_mask(PieceType::Queen);
        let rooks_and_queens = self.piece_mask(PieceType::Rook) | queens;
        let bishops_and_queens = self.piece_mask(PieceType::Bishop) | queens;
        let rook_lines = BoardMask::pseudo_attacks_for(NonPawnPieceType::Rook, king_square);
        let bishop_lines = BoardMask::pseudo_attacks_for(NonPawnPieceType::Bishop, king_square);
        let cardinal_snipers = rooks_and_queens & rook_lines;
        let ordinal_snipers = bishops_and_queens & bishop_lines;
        let all_snipers = cardinal_snipers | ordinal_snipers;
        let attacking_snipers = attackers & all_snipers;
        // All pieces, for both sides, that aren't attacking snipers
        let occupied = self.occupied();
        let non_attacking_sniper_mask = occupied ^ attacking_snipers;
        proof {
            assert forall|q: int| 0 <= q < 64 implies #[trigger] attacking_snipers.has(q) == is_sniper(*self, side, king_square, q) by {
                lemma_bit_ops(self.spec_piece_mask(PieceType::Rook).0, queens.0, q);
                lemma_bit_ops(self.spec_piece_mask(PieceType::Bishop).0, queens.0, q);
                lemma_bit_ops(rooks_and_queens.0, rook_lines.0, q);
                lemma_bit_ops(bishops_and_queens.0, bishop_lines.0, q);
                lemma_bit_ops(cardinal_snipers.0, ordinal_snipers.0, q);
                lemma_bit_ops(attackers.0, all_snipers.0, q);
            }
            assert forall|i: int| 0 <= i < 64 implies #[trigger] non_attacking_sniper_mask.has(i) == (occupied.has(i)
                && !is_sniper(*self, side, king_square, i)) by {
                lemma_bit_ops(occupied.0, attacking_snipers.0, i);
                lemma_bit_ops(attackers.0, all_snipers.0, i);
                assert(occupied.has(i) == (self.spec_side_mask(Player::White).has(i) || self.spec_side_mask(Player::Black).has(i)));
                match side {
                    Player::White => {},
                    Player::Black => {},
                }
                assert(attacking_snipers.has(i) == is_sniper(*self, side, king_square, i));
            }
            assert forall|i: int| 0 <= i < 64 implies !#[trigger] BoardMask(0u64).has(i) by {
                lemma_bit_ops(0u64, 0u64, i);
            }
        }

        // Iterate over all attacking snipers and see if there is only a single blocker
        let mut remaining = attacking_snipers;
        loop
            invariant
                self.spec_king_square(side) == Some(king_square),
                attackers == self.spec_side_mask(side.other()),
                forall|i: int| 0 <= i < 64 ==> #[trigger] non_attacking_sniper_mask.has(i) == (self.spec_occupied().has(i)
                    && !is_sniper(*self, side, king_square, i)),
                forall|q: int| 0 <= q < 64 ==> #[trigger] remaining.has(q) ==> is_sniper(*self, side, king_square, q),
                forall|i: int| 0 <= i < 64 ==> #[trigger] blockers.has(i) == exists|q: int|
                    0 <= q < 64 && is_sniper(*self, side, king_square, q) && !remaining.has(q)
                        && has_lone_blocker(*self, side, king_square, q) && #[trigger] in_the_way(*self, side, king_square, q, i),
                forall|q: int| 0 <= q < 64 ==> #[trigger] pinners.has(q) == (is_sniper(*self, side, king_square, q)
                    && !remaining.has(q) && has_lone_blocker(*self, side, king_square, q)
                    && forall|i: int| 0 <= i < 64 && #[trigger] in_the_way(*self, side, king_square, q, i)
                        ==> !attackers.has(i)),
            ensures
                remaining.0 == 0,
            decreases count_bits(remaining.0, 64),
        {
            let ghost remaining_before = remaining;
            let ghost blockers_before = blockers;
            let ghost pinners_before = pinners;
            let sniper_square = match remaining.pop_square() {
                Some(square) => square,
                None => {
                    break;
                },
            };
            let ghost s = sq_index(sniper_square);
            proof {
                lemma_square_index_range(sniper_square);
                lemma_count_bits_clear(remaining_before.0, s, 64);
            }
            let line = BoardMask::line_between(king_square, sniper_square);
            let blockers_mask = line & non_attacking_sniper_mask;
            proof {
                assert forall|i: int| 0 <= i < 64 implies #[trigger] blockers_mask.has(i) == in_the_way(*self, side, king_square, s, i) by {
                    lemma_bit_ops(line.0, non_attacking_sniper_mask.0, i);
                    assert(line.has(i) == (i == s || strictly_between(sq_index(king_square), s, i)));
                    assert(non_attacking_sniper_mask.has(i) == (self.spec_occupied().has(i) && !is_sniper(*self, side, king_square, i)));
                }
                lemma_count_in_the_way(*self, side, king_square, s, blockers_mask, 64);
            }
            let has_single_blocker = blockers_mask.num_squares() == 1;

            let attacker_blockers = blockers_mask & attackers;
            proof {
                assert forall|i: int| 0 <= i < 64 implies #[trigger] attacker_blockers.has(i) == (in_the_way(*self, side, king_square, s, i)
                    && attackers.has(i)) by {
                    lemma_bit_ops(blockers_mask.0, attackers.0, i);
                    assert(blockers_mask.has(i) == in_the_way(*self, side, king_square, s, i));
                }
            }
            if has_single_blocker {
                blockers = blockers | blockers_mask;
                if attacker_blockers.is_empty() {
                    pinners = pinners | sniper_square.to_mask();
                }
            }
            proof {
                assert forall|i: int| 0 <= i < 64 implies #[trigger] blockers.has(i) == exists|q: int|
                    0 <= q < 64 && is_sniper(*self, side, king_square, q) && !remaining.has(q)
                        && has_lone_blocker(*self, side, king_square, q) && #[trigger] in_the_way(*self, side, king_square, q, i) by {
                    lemma_bit_ops(blockers_before.0, blockers_mask.0, i);
                    assert(blockers_before.has(i) == exists|q: int|
                        0 <= q < 64 && is_sniper(*self, side, king_square, q) && !remaining_before.has(q)
                            && has_lone_blocker(*self, side, king_square, q) && #[trigger] in_the_way(*self, side, king_square, q, i));
                    if exists|q: int| 0 <= q < 64 && is_sniper(*self, side, king_square, q) && !remaining.has(q)
                        && has_lone_blocker(*self, side, king_square, q) && #[trigger] in_the_way(*self, side, king_square, q, i) {
                        let q = choose|q: int| 0 <= q < 64 && is_sniper(*self, side, king_square, q) && !remaining.has(q)
                            && has_lone_blocker(*self, side, king_square, q) && #[trigger] in_the_way(*self, side, king_square, q, i);
                        if q != s {
                            assert(!remaining_before.has(q));
                        }
                    }
                    if blockers_before.has(i) {
                        let q = choose|q: int| 0 <= q < 64 && is_sniper(*self, side, king_square, q) && !remaining_before.has(q)
                            && has_lone_blocker(*self, side, king_square, q) && #[trigger] in_the_way(*self, side, king_square, q, i);
                        assert(!remaining.has(q));
                    }
                    if has_single_blocker && blockers_mask.has(i) {
                        assert(in_the_way(*self, side, king_square, s, i));
                    }
                }
                assert forall|q: int| 0 <= q < 64 implies #[trigger] pinners.has(q) == (is_sniper(*self, side, king_square, q)
                    && !remaining.has(q) && has_lone_blocker(*self, side, king_square, q)
                    && forall|i: int| 0 <= i < 64 && #[trigger] in_the_way(*self, side, king_square, q, i)
                        ==> !attackers.has(i)) by {
                    lemma_bit_ops(pinners_before.0, 1u64 << (s as u64), q);
                    lemma_single_bit(s, q);
                    if q == s {
                        if has_single_blocker {
                            if forall|i: int| 0 <= i < 64 && #[trigger] in_the_way(*self, side, king_square, q, i) ==> !attackers.has(i) {
                                assert forall|i: int| 0 <= i < 64 implies !#[trigger] attacker_blockers.has(i) by {
                                    assert(attacker_blockers.has(i) == (in_the_way(*self, side, king_square, s, i) && attackers.has(i)));
                                }
                            } else {
                                let i = choose|i: int| !(0 <= i < 64 && #[trigger] in_the_way(*self, side, king_square, q, i) ==> !attackers.has(i));
                                assert(attacker_blockers.has(i) == (in_the_way(*self, side, king_square, s, i) && attackers.has(i)));
                            }
                        }
                    } else {
                        assert(remaining.has(q) == remaining_before.has(q));
                        assert(pinners_before.has(q) == (is_sniper(*self, side, king_square, q)
                            && !remaining_before.has(q) && has_lone_blocker(*self, side, king_square, q)
                            && forall|i: int| 0 <= i < 64 && #[trigger] in_the_way(*self, side, king_square, q, i)
                                ==> !attackers.has(i)));
                    }
                }
            }
        }
        proof {
            assert forall|i: int| 0 <= i < 64 implies #[trigger] blockers.has(i) == spec_blocker(*self, side, i) by {
                assert forall|q: int| 0 <= q < 64 implies !#[trigger] remaining.has(q) by {
                    lemma_bit_ops(remaining.0, remaining.0, q);
                }
            }
            assert forall|q: int| 0 <= q < 64 implies #[trigger] pinners.has(q) == spec_pinner(*self, side, q) by {
                assert(!remaining.has(q)) by {
                    lemma_bit_ops(remaining.0, remaining.0, q);
                }
            }
        }
        (blockers, pinners)
    }
}

/// Board index `i` is a square from which a piece of the side to move would give check to the other side's king
/// (pawn, knight, bishop, rook and queen squares; none when that king is missing)
pub open spec fn spec_check_square(board: Board, defending: Player, piece: PieceType, i: int) -> bool {
    match board.spec_king_square(defending) {
        Some(king) => {
            let target = BoardMask::single(sq_index(king));
            let occupied = board.spec_occupied();
            match piece {
                PieceType::Pawn => pawn_attacked(target, defending, i),
                PieceType::Knight => knight_attacked(target, i),
                PieceType::Bishop => sliding_piece_attacked(SlidingPieceType::Bishop, king, occupied, i),
                PieceType::Rook => sliding_piece_attacked(SlidingPieceType::Rook, king, occupied, i),
                PieceType::Queen => sliding_piece_attacked(SlidingPieceType::Queen, king, occupied, i),
                PieceType::King => false,
            }
        },
        None => false,
    }
}

/// Board index `i` holds a piece of `mover` attacking the other side's king (none when that king is missing)
pub open spec fn spec_checker(board: Board, mover: Player, i: int) -> bool {
    match board.spec_king_square(mover.other()) {
        Some(king) => attacks_square(board, king, board.spec_occupied(), i) && board.spec_side_mask(mover).has(i),
        None => false,
    }
}

/// A piece of a type standing on board index `i`, on the board as it stands, would attack `defending`'s king; a
/// pawn there belongs to the other player
pub open spec fn attacks_king_from(board: Board, defending: Player, piece: PieceType, i: int) -> bool {
    match board.spec_king_square(defending) {
        Some(king) => {
            let attacker = BoardMask::single(i);
            let target = sq_index(king);
            let occupied = board.spec_occupied();
            match piece {
                PieceType::Pawn => pawn_attacked(attacker, defending.other(), target),
                PieceType::Knight => knight_attacked(attacker, target),
                PieceType::Bishop => ordinal_attacked(attacker, occupied, target),
                PieceType::Rook => cardinal_attacked(attacker, occupied, target),
                PieceType::Queen => ordinal_attacked(attacker, occupied, target) || cardinal_attacked(
                    attacker,
                    occupied,
                    target,
                ),
                PieceType::King => false,
            }
        },
        None => false,
    }
}

/// A check square of a (non-king) piece type is exactly a square from which such a piece of the side to move,
/// standing there on the board as it is, would attack the defending king; so the check squares kept in the state
/// are those squares
#[verifier::spinoff_prover]
pub proof fn lemma_check_squares_attack_king(board: Board, piece: PieceType, i: int)
    requires
        0 <= i < 64,
    ensures
        spec_check_square(board, board.side_to_move.other(), piece, i) == attacks_king_from(
            board,
            board.side_to_move.other(),
            piece,
            i,
        ),
        move_gen_masks_match(board) && piece != PieceType::King ==> board.state.check_squares.at(piece).has(i)
            == attacks_king_from(board, board.side_to_move.other(), piece, i),
{
    let defending = board.side_to_move.other();
    if let Some(king) = board.spec_king_square(defending) {
        let k = sq_index(king);
        lemma_square_index_range(king);
        let occupied = board.spec_occupied();
        lemma_pawn_symmetric(k, i, defending);
        lemma_knight_symmetric(k, i);
        lemma_ordinal_symmetric(k, i, occupied);
        lemma_cardinal_symmetric(k, i, occupied);
    }
}

/// The state's masks for move generation agree with the pieces: the blockers and pinners of both sides,
/// and the check squares of the side to move
pub open spec fn move_gen_masks_match(board: Board) -> bool {
    &&& forall|side: Player, i: int| 0 <= i < 64 ==> #[trigger] board.state.blockers_for.at(side).has(i)
        == spec_blocker(board, side, i)
    &&& forall|side: Player, i: int| 0 <= i < 64 ==> #[trigger] board.state.pinners_for.at(side).has(i)
        == spec_pinner(board, side, i)
    &&& forall|piece: PieceType, i: int| 0 <= i < 64 && piece != PieceType::King ==> #[trigger] board.state.check_squares.at(piece).has(i)
        == spec_check_square(board, board.side_to_move.other(), piece, i)
}

/// The counts of pieces in the way agree on boards with the same masks
#[verifier::spinoff_prover]
proof fn lemma_in_the_way_count_frame(a: Board, b: Board, side: Player, king: Square, q: int, n: int)
    requires
        a.piece_masks == b.piece_masks,
        a.side_masks == b.side_masks,
    ensures
        in_the_way_count(a, side, king, q, n) == in_the_way_count(b, side, king, q, n),
    decreases n,
{
    if n > 0 {
        lemma_in_the_way_count_frame(a, b, side, king, q, n - 1);
    }
}

/// The lone blocker test agrees on boards with the same masks
#[verifier::spinoff_prover]
proof fn lemma_lone_blocker_frame(a: Board, b: Board, side: Player, king: Square, q: int)
    requires
        a.piece_masks == b.piece_masks,
        a.side_masks == b.side_masks,
    ensures
        has_lone_blocker(a, side, king, q) == has_lone_blocker(b, side, king, q),
        forall|i: int| #[trigger] in_the_way(a, side, king, q, i) == in_the_way(b, side, king, q, i),
        is_sniper(a, side, king, q) == is_sniper(b, side, king, q),
{
    lemma_in_the_way_count_frame(a, b, side, king, q, 64);
}

/// Blockers agree on boards with the same masks
#[verifier::spinoff_prover]
proof fn lemma_blocker_frame(a: Board, b: Board, side: Player, i: int)
    requires
        a.piece_masks == b.piece_masks,
        a.side_masks == b.side_masks,
    ensures
        spec_blocker(a, side, i) == spec_blocker(b, side, i),
{
    assert(a.spec_king_square(side) == b.spec_king_square(side));
    if let Some(king) = a.spec_king_square(side) {
        if spec_blocker(a, side, i) {
            let q = choose|q: int| 0 <= q < 64 && is_sniper(a, side, king, q) && has_lone_blocker(a, side, king, q)
                && #[trigger] in_the_way(a, side, king, q, i);
            lemma_lone_blocker_frame(a, b, side, king, q);
            assert(in_the_way(b, side, king, q, i));
        }
        if spec_blocker(b, side, i) {
            let q = choose|q: int| 0 <= q < 64 && is_sniper(b, side, king, q) && has_lone_blocker(b, side, king, q)
                && #[trigger] in_the_way(b, side, king, q, i);
            lemma_lone_blocker_frame(a, b, side, king, q);
            assert(in_the_way(a, side, king, q, i));
        }
    }
}

/// Pinners agree on boards with the same masks
#[verifier::spinoff_prover]
proof fn lemma_pinner_frame(a: Board, b: Board, side: Player, q: int)
    requires
        a.piece_masks == b.piece_masks,
        a.side_masks == b.side_masks,
    ensures
        spec_pinner(a, side, q) == spec_pinner(b, side, q),
{
    assert(a.spec_king_square(side) == b.spec_king_square(side));
    if let Some(king) = a.spec_king_square(side) {
        lemma_lone_blocker_frame(a, b, side, king, q);
        let attackers = a.spec_side_mask(side.other());
        assert(attackers == b.spec_side_mask(side.other()));
        if forall|i: int| 0 <= i < 64 && #[trigger] in_the_way(a, side, king, q, i) ==> !attackers.has(i) {
            assert forall|i: int| 0 <= i < 64 && #[trigger] in_the_way(b, side, king, q, i) implies !attackers.has(i) by {
                assert(in_the_way(a, side, king, q, i));
            }
        }
        if forall|i: int| 0 <= i < 64 && #[trigger] in_the_way(b, side, king, q, i) ==> !attackers.has(i) {
            assert forall|i: int| 0 <= i < 64 && #[trigger] in_the_way(a, side, king, q, i) implies !attackers.has(i) by {
                assert(in_the_way(b, side, king, q, i));
            }
        }
    }
}

/// What is computed from the masks alone agrees on boards with the same masks
#[verifier::spinoff_prover]
pub proof fn lemma_masks_frame(a: Board, b: Board)
    requires
        a.piece_masks == b.piece_masks,
        a.side_masks == b.side_masks,
    ensures
        forall|side: Player| #[trigger] a.spec_king_square(side) == b.spec_king_square(side),
        forall|side: Player, i: int| #[trigger] spec_blocker(a, side, i) == spec_blocker(b, side, i),
        forall|side: Player, q: int| #[trigger] spec_pinner(a, side, q) == spec_pinner(b, side, q),
        forall|defending: Player, piece: PieceType, i: int| #[trigger] spec_check_square(a, defending, piece, i)
            == spec_check_square(b, defending, piece, i),
        forall|mover: Player, i: int| #[trigger] spec_checker(a, mover, i) == spec_checker(b, mover, i),
        a.spec_occupied() == b.spec_occupied(),
{
    assert forall|side: Player, i: int| #[trigger] spec_blocker(a, side, i) == spec_blocker(b, side, i) by {
        lemma_blocker_frame(a, b, side, i);
    }
    assert forall|side: Player, q: int| #[trigger] spec_pinner(a, side, q) == spec_pinner(b, side, q) by {
        lemma_pinner_frame(a, b, side, q);
    }
}

impl Board {
    /// Compute the squares from which a piece of the side to move gives check to the other side's king
    /// (the king's own entry is left as it is)
    #[verifier::spinoff_prover]
    pub fn update_check_squares(&mut self)
        ensures
            forall|piece: PieceType, i: int| 0 <= i < 64 && piece != PieceType::King ==> #[trigger] final(self).state.check_squares.at(piece).has(i)
                == spec_check_square(*old(self), old(self).side_to_move.other(), piece, i),
            final(self).state.check_squares.at(PieceType::King) == old(self).state.check_squares.at(PieceType::King),
            *final(self) == (Board {
                state: State { check_squares: final(self).state.check_squares, ..old(self).state },
                ..*old(self)
            }),
    {
        let ghost board = *self;
        let defending_side = self.side_to_move.switch();
        let (pawn, knight, bishop, rook, queen) = match self.king_square(defending_side) {
            Some(defending_king_square) => {
                let king_mask = defending_king_square.to_mask();
                let occupied_mask = self.occupied();
                let ordinal_attacks = BoardMask::sliding_attacks_for(SlidingPieceType::Bishop, defending_king_square, occupied_mask);
                let cardinal_attacks = BoardMask::sliding_attacks_for(SlidingPieceType::Rook, defending_king_square, occupied_mask);
                let queen = ordinal_attacks | cardinal_attacks;
                proof {
                    assert forall|i: int| 0 <= i < 64 implies #[trigger] queen.has(i)
                        == sliding_piece_attacked(SlidingPieceType::Queen, defending_king_square, occupied_mask, i) by {
                        lemma_bit_ops(ordinal_attacks.0, cardinal_attacks.0, i);
                        assert(ordinal_attacks.has(i) == sliding_piece_attacked(SlidingPieceType::Bishop, defending_king_square, occupied_mask, i));
                        assert(cardinal_attacks.has(i) == sliding_piece_attacked(SlidingPieceType::Rook, defending_king_square, occupied_mask, i));
                    }
                }
                (king_mask.pawn_attacks(defending_side), king_mask.knight_attacks(), ordinal_attacks, cardinal_attacks, queen)
            },
            None => {
                proof {
                    assert forall|i: int| 0 <= i < 64 implies !#[trigger] BoardMask(0u64).has(i) by {
                        lemma_bit_ops(0u64, 0u64, i);
                    }
                }
                (BoardMask::empty(), BoardMask::empty(), BoardMask::empty(), BoardMask::empty(), BoardMask::empty())
            },
        };
        let ghost before = self.state.check_squares;
        *self.state.check_squares.mut_piece(PieceType::Pawn) = pawn;
        *self.state.check_squares.mut_piece(PieceType::Knight) = knight;
        *self.state.check_squares.mut_piece(PieceType::Bishop) = bishop;
        *self.state.check_squares.mut_piece(PieceType::Rook) = rook;
        *self.state.check_squares.mut_piece(PieceType::Queen) = queen;
        proof {
            before.lemma_len();
        }
    }

    /// Set the checkers: when `gives_check` holds, the side to move's pieces attacking the other king, else none
    #[verifier::spinoff_prover]
    pub fn update_checkers(&mut self, gives_check: bool)
        ensures
            forall|i: int| 0 <= i < 64 ==> #[trigger] final(self).state.checkers.has(i)
                == (gives_check && spec_checker(*old(self), old(self).side_to_move, i)),
            *final(self) == (Board { state: State { checkers: final(self).state.checkers, ..old(self).state }, ..*old(self) }),
    {
        let checkers = if gives_check {
            let attackers = self.side_mask(self.side_to_move);
            match self.king_square(self.side_to_move.switch()) {
                Some(defending_king_square) => {
                    let attacks = self.attackers_to(defending_king_square, self.occupied());
                    let res = attacks & attackers;
                    proof {
                        assert forall|i: int| 0 <= i < 64 implies #[trigger] res.has(i) == spec_checker(*self, self.side_to_move, i) by {
                            lemma_bit_ops(attacks.0, attackers.0, i);
                            assert(attacks.has(i) == attacks_square(*self, defending_king_square, self.spec_occupied(), i));
                        }
                    }
                    res
                },
                None => {
                    proof {
                        assert forall|i: int| 0 <= i < 64 implies !#[trigger] BoardMask(0u64).has(i) by {
                            lemma_bit_ops(0u64, 0u64, i);
                        }
                    }
                    BoardMask::empty()
                },
            }
        } else {
            proof {
                assert forall|i: int| 0 <= i < 64 implies !#[trigger] BoardMask(0u64).has(i) by {
                    lemma_bit_ops(0u64, 0u64, i);
                }
            }
            BoardMask::empty()
        };
        self.state.checkers = checkers;
    }

    /// Update the blockers and pinners of both sides and the check squares of the side to move
    #[verifier::spinoff_prover]
    pub fn update_move_gen_masks(&mut self)
        ensures
            move_gen_masks_match(*final(self)),
            final(self).state.check_squares.at(PieceType::King) == old(self).state.check_squares.at(PieceType::King),
            *final(self) == (Board {
                state: State {
                    blockers_for: final(self).state.blockers_for,
                    pinners_for: final(self).state.pinners_for,
                    check_squares: final(self).state.check_squares,
                    ..old(self).state
                },
                ..*old(self)
            }),
    {
        let ghost start = *self;
        self.update_blockers_pinners_for_side(Player::White);
        let ghost after_white = *self;
        self.update_blockers_pinners_for_side(Player::Black);
        let ghost after_black = *self;
        self.update_check_squares();
        proof {
            lemma_masks_frame(start, *self);
            lemma_masks_frame(after_white, *self);
            lemma_masks_frame(after_black, *self);
            assert forall|side: Player, i: int| 0 <= i < 64 implies #[trigger] self.state.blockers_for.at(side).has(i)
                == spec_blocker(*self, side, i) by {
                match side {
                    Player::White => {},
                    Player::Black => {},
                }
            }
            assert forall|side: Player, i: int| 0 <= i < 64 implies #[trigger] self.state.pinners_for.at(side).has(i)
                == spec_pinner(*self, side, i) by {
                match side {
                    Player::White => {},
                    Player::Black => {},
                }
            }
        }
    }
}

/// The piece a pawn promotes to, standing on `square`, attacks board index `i` with `occupied` blocking sliders
pub open spec fn promotion_attacked(promotion: PromotionPieceType, square: Square, occupied: BoardMask, i: int) -> bool {
    match promotion {
        PromotionPieceType::Queen => sliding_piece_attacked(SlidingPieceType::Queen, square, occupied, i),
        PromotionPieceType::Rook => sliding_piece_attacked(SlidingPieceType::Rook, square, occupied, i),
        PromotionPieceType::Bishop => sliding_piece_attacked(SlidingPieceType::Bishop, square, occupied, i),
        PromotionPieceType::Knight => knight_attacked(BoardMask::single(sq_index(square)), i),
    }
}

/// The square `square` holds a piece that alone blocks a sniper from `defending_side`'s king
pub open spec fn spec_is_blocker(board: Board, defending_side: Player, square: Square) -> bool {
    board.state.blockers_for.at(defending_side).contains(square)
}

/// Moving a blocker from `from` to `to` off the line through the defending king uncovers a check
pub open spec fn spec_is_discovery(board: Board, defending_side: Player, from: Square, to: Square) -> bool {
    match board.spec_king_square(defending_side) {
        Some(king) => spec_is_blocker(board, defending_side, from) && !on_line(sq_index(from), sq_index(to), sq_index(king)),
        None => false,
    }
}

/// A piece of a type landing on `square` gives check directly
pub open spec fn spec_is_direct_check(board: Board, piece_type: PieceType, square: Square) -> bool {
    board.state.check_squares.at(piece_type).contains(square)
}

/// The mask without the bit of a square
pub open spec fn without(mask: BoardMask, square: Square) -> BoardMask {
    BoardMask(mask.0 ^ BoardMask::single(sq_index(square)).0)
}

/// If a move gives check, judged from the state's check squares and blockers, and from sliders uncovered by an
/// en-passant capture, a castling rook, or a promoted piece
pub open spec fn spec_gives_check(board: Board, chess_move: ChessMove) -> bool {
    let mover = board.side_to_move;
    let defending_side = mover.other();
    let from = chess_move.from;
    let to = chess_move.to;
    let discovery = spec_is_discovery(board, defending_side, from, to);
    let occupied = board.spec_occupied();
    let defending_king = board.spec_king_mask(defending_side);
    match chess_move.move_type {
        MoveType::Quiet { piece_type } => spec_is_direct_check(board, piece_type, to) || discovery,
        MoveType::Capture { piece_type, .. } => spec_is_direct_check(board, piece_type, to) || discovery,
        MoveType::DoublePawnPush { .. } => spec_is_direct_check(board, PieceType::Pawn, to) || discovery,
        MoveType::EnPassantCapture { captured_pawn_square } => {
            let after = BoardMask(without(without(occupied, from), captured_pawn_square).0 | BoardMask::single(sq_index(to)).0);
            let slider_check = match board.spec_king_square(defending_side) {
                Some(king) => exists|i: int| 0 <= i < 64 && #[trigger] board.spec_side_mask(mover).has(i) && {
                    ||| (board.spec_piece_mask(PieceType::Queen).has(i) || board.spec_piece_mask(PieceType::Rook).has(i))
                        && sliding_piece_attacked(SlidingPieceType::Rook, king, after, i)
                    ||| (board.spec_piece_mask(PieceType::Queen).has(i) || board.spec_piece_mask(PieceType::Bishop).has(i))
                        && sliding_piece_attacked(SlidingPieceType::Bishop, king, after, i)
                },
                None => false,
            };
            slider_check || spec_is_direct_check(board, PieceType::Pawn, to) || discovery
        },
        MoveType::Castle { castle_direction } => {
            let after = without(without(occupied, from), to);
            exists|i: int| 0 <= i < 64 && #[trigger] defending_king.has(i)
                && sliding_piece_attacked(SlidingPieceType::Rook, spec_rook_to_square(mover, castle_direction), after, i)
        },
        MoveType::Promotion { promotion } => {
            (exists|i: int| 0 <= i < 64 && #[trigger] defending_king.has(i) && promotion_attacked(promotion, to, without(occupied, from), i))
                || discovery
        },
        MoveType::PromotingCapture { promotion, .. } => {
            (exists|i: int| 0 <= i < 64 && #[trigger] defending_king.has(i) && promotion_attacked(promotion, to, without(occupied, from), i))
                || discovery
        },
    }
}

impl Board {
    /// If a square holds a piece that alone blocks a sniper from the defending side's king
    #[verifier::spinoff_prover]
    pub fn is_blocker(&self, defending_side: Player, blocker_square: Square) -> (res: bool)
        ensures
            res == spec_is_blocker(*self, defending_side, blocker_square),
    {
        self.state.blockers_for.get_side(defending_side).has_square(blocker_square)
    }

    /// If moving a piece from `from_square` to `to_square` uncovers a check on the defending side's king
    /// (never, when that king is missing)
    #[verifier::spinoff_prover]
    pub fn is_discovery(&self, defending_side: Player, from_square: Square, to_square: Square) -> (res: bool)
        ensures
            res == spec_is_discovery(*self, defending_side, from_square, to_square),
    {
        match self.king_square(defending_side) {
            Some(king_square) => self.is_blocker(defending_side, from_square)
                && !BoardMask::is_aligned(from_square, to_square, king_square),
            None => false,
        }
    }

    /// If a piece of a type landing on a square gives check directly
    #[verifier::spinoff_prover]
    pub fn is_direct_check(&self, piece_type: PieceType, attacking_square: Square) -> (res: bool)
        ensures
            res == spec_is_direct_check(*self, piece_type, attacking_square),
    {
        self.state.check_squares.get_piece(piece_type).has_square(attacking_square)
    }

    /// The attacks of a promoted piece on an occupied board
    #[verifier::spinoff_prover]
    fn promotion_attacks(promotion: PromotionPieceType, square: Square, occupied: BoardMask) -> (res: BoardMask)
        ensures
            forall|i: int| 0 <= i < 64 ==> #[trigger] res.has(i) == promotion_attacked(promotion, square, occupied, i),
    {
        match promotion {
            PromotionPieceType::Queen => BoardMask::sliding_attacks_for(SlidingPieceType::Queen, square, occupied),
            PromotionPieceType::Rook => BoardMask::sliding_attacks_for(SlidingPieceType::Rook, square, occupied),
            PromotionPieceType::Bishop => BoardMask::sliding_attacks_for(SlidingPieceType::Bishop, square, occupied),
            PromotionPieceType::Knight => square.to_mask().knight_attacks(),
        }
    }

    /// If an en-passant capture uncovers a slider check on the defending king
    #[verifier::spinoff_prover]
    fn en_passant_slider_check(&self, from: Square, to: Square, captured_pawn_square: Square) -> (res: bool)
        ensures
            res == (match self.spec_king_square(self.side_to_move.other()) {
                Some(king) => exists|i: int| 0 <= i < 64 && #[trigger] self.spec_side_mask(self.side_to_move).has(i) && {
                    ||| (self.spec_piece_mask(PieceType::Queen).has(i) || self.spec_piece_mask(PieceType::Rook).has(i))
                        && sliding_piece_attacked(SlidingPieceType::Rook, king, BoardMask(without(without(self.spec_occupied(), from), captured_pawn_square).0 | BoardMask::single(sq_index(to)).0), i)
                    ||| (self.spec_piece_mask(PieceType::Queen).has(i) || self.spec_piece_mask(PieceType::Bishop).has(i))
                        && sliding_piece_attacked(SlidingPieceType::Bishop, king, BoardMask(without(without(self.spec_occupied(), from), captured_pawn_square).0 | BoardMask::single(sq_index(to)).0), i)
                },
                None => false,
            }),
    {
        let attackers = self.side_mask(self.side_to_move);
        let occupied = self.occupied() ^ from.to_mask() ^ captured_pawn_square.to_mask() | to.to_mask();
        match self.king_square(self.side_to_move.switch()) {
            Some(defending_king_square) => {
                let queens = self.piece_mask(PieceType::Queen);
                let cardinal_attackers = (queens | self.piece_mask(PieceType::Rook)) & attackers;
                let ordinal_attackers = (queens | self.piece_mask(PieceType::Bishop)) & attackers;
                let cardinal_lines = BoardMask::sliding_attacks_for(SlidingPieceType::Rook, defending_king_square, occupied);
                let ordinal_lines = BoardMask::sliding_attacks_for(SlidingPieceType::Bishop, defending_king_square, occupied);
                let cardinal_checks = cardinal_lines & cardinal_attackers;
                let ordinal_checks = ordinal_lines & ordinal_attackers;
                let checks = cardinal_checks | ordinal_checks;
                proof {
                    assert forall|i: int| 0 <= i < 64 implies #[trigger] checks.has(i) == (attackers.has(i) && {
                        ||| (queens.has(i) || self.spec_piece_mask(PieceType::Rook).has(i))
                            && sliding_piece_attacked(SlidingPieceType::Rook, defending_king_square, occupied, i)
                        ||| (queens.has(i) || self.spec_piece_mask(PieceType::Bishop).has(i))
                            && sliding_piece_attacked(SlidingPieceType::Bishop, defending_king_square, occupied, i)
                    }) by {
                        lemma_bit_ops(queens.0, self.spec_piece_mask(PieceType::Rook).0, i);
                        lemma_bit_ops(queens.0, self.spec_piece_mask(PieceType::Bishop).0, i);
                        lemma_bit_ops(queens.0 | self.spec_piece_mask(PieceType::Rook).0, attackers.0, i);
                        lemma_bit_ops(queens.0 | self.spec_piece_mask(PieceType::Bishop).0, attackers.0, i);
                        lemma_bit_ops(cardinal_lines.0, cardinal_attackers.0, i);
                        lemma_bit_ops(ordinal_lines.0, ordinal_attackers.0, i);
                        lemma_bit_ops(cardinal_checks.0, ordinal_checks.0, i);
                        assert(cardinal_lines.has(i) == sliding_piece_attacked(SlidingPieceType::Rook, defending_king_square, occupied, i));
                        assert(ordinal_lines.has(i) == sliding_piece_attacked(SlidingPieceType::Bishop, defending_king_square, occupied, i));
                    }
                    assert(occupied == BoardMask(without(without(self.spec_occupied(), from), captured_pawn_square).0
                        | BoardMask::single(sq_index(to)).0));
                    let after = occupied;
                    if exists|i: int| 0 <= i < 64 && #[trigger] checks.has(i) {
                        let i = choose|i: int| 0 <= i < 64 && #[trigger] checks.has(i);
                        assert(checks.has(i));
                        assert(self.spec_side_mask(self.side_to_move).has(i));
                    }
                    if exists|i: int| 0 <= i < 64 && #[trigger] self.spec_side_mask(self.side_to_move).has(i) && {
                        ||| (self.spec_piece_mask(PieceType::Queen).has(i) || self.spec_piece_mask(PieceType::Rook).has(i))
                            && sliding_piece_attacked(SlidingPieceType::Rook, defending_king_square, after, i)
                        ||| (self.spec_piece_mask(PieceType::Queen).has(i) || self.spec_piece_mask(PieceType::Bishop).has(i))
                            && sliding_piece_attacked(SlidingPieceType::Bishop, defending_king_square, after, i)
                    } {
                        let i = choose|i: int| 0 <= i < 64 && #[trigger] self.spec_side_mask(self.side_to_move).has(i) && {
                            ||| (self.spec_piece_mask(PieceType::Queen).has(i) || self.spec_piece_mask(PieceType::Rook).has(i))
                                && sliding_piece_attacked(SlidingPieceType::Rook, defending_king_square, after, i)
                            ||| (self.spec_piece_mask(PieceType::Queen).has(i) || self.spec_piece_mask(PieceType::Bishop).has(i))
                                && sliding_piece_attacked(SlidingPieceType::Bishop, defending_king_square, after, i)
                        };
                        assert(checks.has(i));
                    }
                }
                !checks.is_empty()
            },
            None => false,
        }
    }

    /// If the castling rook lands attacking the defending king
    #[verifier::spinoff_prover]
    fn castle_check(&self, from: Square, to: Square, castle_direction: CastleDirection) -> (res: bool)
        ensures
            res == exists|i: int| 0 <= i < 64 && #[trigger] self.spec_king_mask(self.side_to_move.other()).has(i)
                && sliding_piece_attacked(SlidingPieceType::Rook, spec_rook_to_square(self.side_to_move, castle_direction),
                without(without(self.spec_occupied(), from), to), i),
    {
        let defending_king_mask = self.piece_mask(PieceType::King) & self.side_mask(self.side_to_move.switch());
        let rook_to_square = self.state.castles.rook_to_square(self.side_to_move, castle_direction);
        let occupied = self.occupied() ^ from.to_mask() ^ to.to_mask();
        let rook_lines = BoardMask::sliding_attacks_for(SlidingPieceType::Rook, rook_to_square, occupied);
        let rook_attacks = rook_lines & defending_king_mask;
        proof {
            assert forall|i: int| 0 <= i < 64 implies #[trigger] rook_attacks.has(i) == (defending_king_mask.has(i)
                && sliding_piece_attacked(SlidingPieceType::Rook, rook_to_square, occupied, i)) by {
                lemma_bit_ops(rook_lines.0, defending_king_mask.0, i);
                assert(rook_lines.has(i) == sliding_piece_attacked(SlidingPieceType::Rook, rook_to_square, occupied, i));
            }
            assert(occupied == without(without(self.spec_occupied(), from), to));
            assert(defending_king_mask == self.spec_king_mask(self.side_to_move.other()));
            if exists|i: int| 0 <= i < 64 && #[trigger] rook_attacks.has(i) {
                let i = choose|i: int| 0 <= i < 64 && #[trigger] rook_attacks.has(i);
                assert(rook_attacks.has(i));
                assert(self.spec_king_mask(self.side_to_move.other()).has(i));
            }
            if exists|i: int| 0 <= i < 64 && #[trigger] self.spec_king_mask(self.side_to_move.other()).has(i)
                && sliding_piece_attacked(SlidingPieceType::Rook, spec_rook_to_square(self.side_to_move, castle_direction),
                without(without(self.spec_occupied(), from), to), i) {
                let i = choose|i: int| 0 <= i < 64 && #[trigger] self.spec_king_mask(self.side_to_move.other()).has(i)
                    && sliding_piece_attacked(SlidingPieceType::Rook, spec_rook_to_square(self.side_to_move, castle_direction),
                    without(without(self.spec_occupied(), from), to), i);
                assert(rook_attacks.has(i));
            }
        }
        !rook_attacks.is_empty()
    }

    /// If the promoted piece lands attacking the defending king
    #[verifier::spinoff_prover]
    fn promotion_check(&self, from: Square, to: Square, promotion: PromotionPieceType) -> (res: bool)
        ensures
            res == exists|i: int| 0 <= i < 64 && #[trigger] self.spec_king_mask(self.side_to_move.other()).has(i)
                && promotion_attacked(promotion, to, without(self.spec_occupied(), from), i),
    {
        let defending_king_mask = self.piece_mask(PieceType::King) & self.side_mask(self.side_to_move.switch());
        let occupied = self.occupied() ^ from.to_mask();
        let lines = Self::promotion_attacks(promotion, to, occupied);
        let promotion_attacks = lines & defending_king_mask;
        proof {
            assert forall|i: int| 0 <= i < 64 implies #[trigger] promotion_attacks.has(i) == (defending_king_mask.has(i)
                && promotion_attacked(promotion, to, occupied, i)) by {
                lemma_bit_ops(lines.0, defending_king_mask.0, i);
                assert(lines.has(i) == promotion_attacked(promotion, to, occupied, i));
            }
            assert(occupied == without(self.spec_occupied(), from));
            assert(defending_king_mask == self.spec_king_mask(self.side_to_move.other()));
            if exists|i: int| 0 <= i < 64 && #[trigger] promotion_attacks.has(i) {
                let i = choose|i: int| 0 <= i < 64 && #[trigger] promotion_attacks.has(i);
                assert(promotion_attacks.has(i));
                assert(self.spec_king_mask(self.side_to_move.other()).has(i));
            }
            if exists|i: int| 0 <= i < 64 && #[trigger] self.spec_king_mask(self.side_to_move.other()).has(i)
                && promotion_attacked(promotion, to, without(self.spec_occupied(), from), i) {
                let i = choose|i: int| 0 <= i < 64 && #[trigger] self.spec_king_mask(self.side_to_move.other()).has(i)
                    && promotion_attacked(promotion, to, without(self.spec_occupied(), from), i);
                assert(promotion_attacks.has(i));
            }
        }
        !promotion_attacks.is_empty()
    }

    /// Check if a given move will give check
    #[verifier::spinoff_prover]
    pub fn gives_check(&self, chess_move: ChessMove) -> (res: bool)
        ensures
            res == spec_gives_check(*self, chess_move),
    {
        let defending_side = self.side_to_move.switch();
        let ChessMove { move_type, from, to } = chess_move;
        let discovery = self.is_discovery(defending_side, from, to);
        match move_type {
            MoveType::Quiet { piece_type } => self.is_direct_check(piece_type, to) || discovery,
            MoveType::Capture { piece_type, .. } => self.is_direct_check(piece_type, to) || discovery,
            MoveType::DoublePawnPush { .. } => self.is_direct_check(PieceType::Pawn, to) || discovery,
            MoveType::EnPassantCapture { captured_pawn_square } => {
                self.en_passant_slider_check(from, to, captured_pawn_square) || self.is_direct_check(PieceType::Pawn, to) || discovery
            },
            MoveType::Castle { castle_direction } => self.castle_check(from, to, castle_direction),
            MoveType::Promotion { promotion } => self.promotion_check(from, to, promotion) || discovery,
            MoveType::PromotingCapture { promotion, .. } => self.promotion_check(from, to, promotion) || discovery,
        }
    }
}

} // verus!
