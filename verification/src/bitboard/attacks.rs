use vstd::prelude::*;

use crate::bitboard::{bit_of, lemma_bit_ops, offset_square, BoardMask, Direction};
use crate::piece_type::{NonPawnPieceType, SlidingPieceType};
use crate::player::Player;
use crate::square::{index_file, index_rank, lemma_square_index_range, sq_index, Square};

verus! {

/// The raw bits of a mask moved one step in a direction, dropping squares that leave the board
pub open spec fn spec_shift_bits(x: u64, direction: Direction) -> u64 {
    match direction {
        Direction::North => x << 8u64,
        Direction::South => x >> 8u64,
        Direction::East => (x << 1u64) & 0xFEFE_FEFE_FEFE_FEFEu64,
        Direction::West => (x >> 1u64) & 0x7F7F_7F7F_7F7F_7F7Fu64,
        Direction::NorthEast => (x << 9u64) & 0xFEFE_FEFE_FEFE_FEFEu64,
        Direction::NorthWest => (x << 7u64) & 0x7F7F_7F7F_7F7F_7F7Fu64,
        Direction::SouthEast => (x >> 7u64) & 0xFEFE_FEFE_FEFE_FEFEu64,
        Direction::SouthWest => (x >> 9u64) & 0x7F7F_7F7F_7F7F_7F7Fu64,
    }
}

/// Moving a mask one step in a direction keeps exactly the squares whose predecessor was set
pub proof fn lemma_shift_bits(x: u64, direction: Direction, t: int)
    requires
        0 <= t < 64,
    ensures
        BoardMask(spec_shift_bits(x, direction)).has(t) == BoardMask(x).came_from(
            t,
            direction.file_delta(),
            direction.rank_delta(),
        ),
{
    let k = t as u64;
    match direction {
        Direction::North => {
            assert(k < 64 ==> ((((x << 8u64) >> k) & 1u64 == 1u64) == (k >= 8 && ((x >> ((k - 8) as u64)) & 1u64 == 1u64)))) by (bit_vector);
        },
        Direction::South => {
            assert(k < 64 ==> ((((x >> 8u64) >> k) & 1u64 == 1u64) == (k < 56 && ((x >> ((k + 8) as u64)) & 1u64 == 1u64)))) by (bit_vector);
        },
        Direction::East => {
            assert(k < 64 ==> (((((x << 1u64) & 0xFEFE_FEFE_FEFE_FEFEu64) >> k) & 1u64 == 1u64) == (k % 8 >= 1 && ((x >> ((k - 1) as u64)) & 1u64 == 1u64)))) by (bit_vector);
        },
        Direction::West => {
            assert(k < 64 ==> (((((x >> 1u64) & 0x7F7F_7F7F_7F7F_7F7Fu64) >> k) & 1u64 == 1u64) == (k % 8 <= 6 && ((x >> ((k + 1) as u64)) & 1u64 == 1u64)))) by (bit_vector);
        },
        Direction::NorthEast => {
            assert(k < 64 ==> (((((x << 9u64) & 0xFEFE_FEFE_FEFE_FEFEu64) >> k) & 1u64 == 1u64) == (k % 8 >= 1 && k >= 8 && ((x >> ((k - 9) as u64)) & 1u64 == 1u64)))) by (bit_vector);
        },
        Direction::NorthWest => {
            assert(k < 64 ==> (((((x << 7u64) & 0x7F7F_7F7F_7F7F_7F7Fu64) >> k) & 1u64 == 1u64) == (k % 8 <= 6 && k >= 8 && ((x >> ((k - 7) as u64)) & 1u64 == 1u64)))) by (bit_vector);
        },
        Direction::SouthEast => {
            assert(k < 64 ==> (((((x >> 7u64) & 0xFEFE_FEFE_FEFE_FEFEu64) >> k) & 1u64 == 1u64) == (k % 8 >= 1 && k < 56 && ((x >> ((k + 7) as u64)) & 1u64 == 1u64)))) by (bit_vector);
        },
        Direction::SouthWest => {
            assert(k < 64 ==> (((((x >> 9u64) & 0x7F7F_7F7F_7F7F_7F7Fu64) >> k) & 1u64 == 1u64) == (k % 8 <= 6 && k < 56 && ((x >> ((k + 9) as u64)) & 1u64 == 1u64)))) by (bit_vector);
        },
    }
}

/// The squares a knight on board index `s` attacks include `t`: `t` is one of the eight
/// L-shaped (one file and two ranks, or two files and one rank) jumps away
pub open spec fn knight_attacked(mask: BoardMask, t: int) -> bool {
    ||| mask.came_from(t, 1, 2)
    ||| mask.came_from(t, -1, 2)
    ||| mask.came_from(t, 1, -2)
    ||| mask.came_from(t, -1, -2)
    ||| mask.came_from(t, 2, 1)
    ||| mask.came_from(t, -2, 1)
    ||| mask.came_from(t, 2, -1)
    ||| mask.came_from(t, -2, -1)
}

/// If `t` is one of the eight squares surrounding a square of the mask
pub open spec fn king_attacked(mask: BoardMask, t: int) -> bool {
    ||| mask.came_from(t, 1, 0)
    ||| mask.came_from(t, -1, 0)
    ||| mask.came_from(t, 0, 1)
    ||| mask.came_from(t, 0, -1)
    ||| mask.came_from(t, 1, 1)
    ||| mask.came_from(t, -1, 1)
    ||| mask.came_from(t, 1, -1)
    ||| mask.came_from(t, -1, -1)
}

/// How many ranks forward a pawn of a player moves (1 for white, -1 for black)
pub open spec fn pawn_forward(player: Player) -> int {
    match player {
        Player::White => 1,
        Player::Black => -1,
    }
}

impl BoardMask {
    /// Move every square of the mask one step in a direction, dropping squares that would leave the board
    pub fn shift(self, direction: Direction) -> (res: BoardMask)
        ensures
            res.0 == spec_shift_bits(self.0, direction),
            forall|t: int| 0 <= t < 64 ==> res.has(t) == #[trigger] self.came_from(
                t,
                direction.file_delta(),
                direction.rank_delta(),
            ),
    {
        let bits = match direction {
            Direction::North => self.0 << 8u64,
            Direction::South => self.0 >> 8u64,
            Direction::East => (self.0 << 1u64) & 0xFEFE_FEFE_FEFE_FEFEu64,
            Direction::West => (self.0 >> 1u64) & 0x7F7F_7F7F_7F7F_7F7Fu64,
            Direction::NorthEast => (self.0 << 9u64) & 0xFEFE_FEFE_FEFE_FEFEu64,
            Direction::NorthWest => (self.0 << 7u64) & 0x7F7F_7F7F_7F7F_7F7Fu64,
            Direction::SouthEast => (self.0 >> 7u64) & 0xFEFE_FEFE_FEFE_FEFEu64,
            Direction::SouthWest => (self.0 >> 9u64) & 0x7F7F_7F7F_7F7F_7F7Fu64,
        };
        proof {
            assert forall|t: int| 0 <= t < 64 implies BoardMask(bits).has(t) == #[trigger] self.came_from(
                t,
                direction.file_delta(),
                direction.rank_delta(),
            ) by {
                lemma_shift_bits(self.0, direction, t);
            }
        }
        BoardMask(bits)
    }

    /// Calculate the knight attacks mask for a given mask of knight attacker(s)
    pub fn knight_attacks(self) -> (res: BoardMask)
        ensures
            forall|t: int| 0 <= t < 64 ==> res.has(t) == #[trigger] knight_attacked(self, t),
    {
        let l1 = (self.0 >> 1u64) & 0x7F7F_7F7F_7F7F_7F7Fu64;
        let l2 = (self.0 >> 2u64) & 0x3F3F_3F3F_3F3F_3F3Fu64;
        let r1 = (self.0 << 1u64) & 0xFEFE_FEFE_FEFE_FEFEu64;
        let r2 = (self.0 << 2u64) & 0xFCFC_FCFC_FCFC_FCFCu64;
        let h1 = l1 | r1;
        let h2 = l2 | r2;
        let bits = (h1 << 16u64) | (h1 >> 16u64) | (h2 << 8u64) | (h2 >> 8u64);
        proof {
            assert forall|t: int| 0 <= t < 64 implies BoardMask(bits).has(t) == #[trigger] knight_attacked(self, t) by {
                let (x, k) = (self.0, t as u64);
                assert(k < 64 ==> ((((((((x >> 1u64) & 0x7F7F_7F7F_7F7F_7F7Fu64) | ((x << 1u64) & 0xFEFE_FEFE_FEFE_FEFEu64)) << 16u64)
                    | ((((x >> 1u64) & 0x7F7F_7F7F_7F7F_7F7Fu64) | ((x << 1u64) & 0xFEFE_FEFE_FEFE_FEFEu64)) >> 16u64)
                    | ((((x >> 2u64) & 0x3F3F_3F3F_3F3F_3F3Fu64) | ((x << 2u64) & 0xFCFC_FCFC_FCFC_FCFCu64)) << 8u64)
                    | ((((x >> 2u64) & 0x3F3F_3F3F_3F3F_3F3Fu64) | ((x << 2u64) & 0xFCFC_FCFC_FCFC_FCFCu64)) >> 8u64)) >> k) & 1u64 == 1u64)
                    == (
                        (k % 8 >= 1 && k >= 16 && ((x >> ((k - 17) as u64)) & 1u64 == 1u64))
                        || (k % 8 <= 6 && k >= 16 && ((x >> ((k - 15) as u64)) & 1u64 == 1u64))
                        || (k % 8 >= 1 && k < 48 && ((x >> ((k + 15) as u64)) & 1u64 == 1u64))
                        || (k % 8 <= 6 && k < 48 && ((x >> ((k + 17) as u64)) & 1u64 == 1u64))
                        || (k % 8 >= 2 && k >= 8 && ((x >> ((k - 10) as u64)) & 1u64 == 1u64))
                        || (k % 8 <= 5 && k >= 8 && ((x >> ((k - 6) as u64)) & 1u64 == 1u64))
                        || (k % 8 >= 2 && k < 56 && ((x >> ((k + 6) as u64)) & 1u64 == 1u64))
                        || (k % 8 <= 5 && k < 56 && ((x >> ((k + 10) as u64)) & 1u64 == 1u64))
                    ))) by (bit_vector);
            }
        }
        BoardMask(bits)
    }

    /// Calculate the king attacks mask for a given mask of king attacker(s)
    pub fn king_attacks(self) -> (res: BoardMask)
        ensures
            forall|t: int| 0 <= t < 64 ==> res.has(t) == #[trigger] king_attacked(self, t),
    {
        let attacks = self.shift(Direction::East) | self.shift(Direction::West);
        let with_attacks = self | attacks;
        let res = attacks | with_attacks.shift(Direction::North) | with_attacks.shift(Direction::South);
        proof {
            assert forall|t: int| 0 <= t < 64 implies res.has(t) == #[trigger] king_attacked(self, t) by {
                let (x, k) = (self.0, t as u64);
                assert(k < 64 ==> ((((((((x << 1u64) & 0xFEFE_FEFE_FEFE_FEFEu64) | ((x >> 1u64) & 0x7F7F_7F7F_7F7F_7F7Fu64)) | ((x | (((x << 1u64) & 0xFEFE_FEFE_FEFE_FEFEu64) | ((x >> 1u64) & 0x7F7F_7F7F_7F7F_7F7Fu64))) << 8u64) | ((x | (((x << 1u64) & 0xFEFE_FEFE_FEFE_FEFEu64) | ((x >> 1u64) & 0x7F7F_7F7F_7F7F_7F7Fu64))) >> 8u64)) >> k) & 1u64) == 1u64)
                    == (
                        (k % 8 >= 1 && ((x >> ((k - 1) as u64)) & 1u64 == 1u64))
                        || (k % 8 <= 6 && ((x >> ((k + 1) as u64)) & 1u64 == 1u64))
                        || (k >= 8 && ((x >> ((k - 8) as u64)) & 1u64 == 1u64))
                        || (k < 56 && ((x >> ((k + 8) as u64)) & 1u64 == 1u64))
                        || (k % 8 >= 1 && k >= 8 && ((x >> ((k - 9) as u64)) & 1u64 == 1u64))
                        || (k % 8 <= 6 && k >= 8 && ((x >> ((k - 7) as u64)) & 1u64 == 1u64))
                        || (k % 8 >= 1 && k < 56 && ((x >> ((k + 7) as u64)) & 1u64 == 1u64))
                        || (k % 8 <= 6 && k < 56 && ((x >> ((k + 9) as u64)) & 1u64 == 1u64))
                    ))) by (bit_vector);
            }
        }
        res
    }

    /// Calculate the pawn west attacks mask for a given mask of pawn attacker(s)
    pub fn pawn_west_attacks(self, player: Player) -> (res: BoardMask)
        ensures
            forall|t: int| 0 <= t < 64 ==> res.has(t) == #[trigger] self.came_from(t, -1, pawn_forward(player)),
    {
        let west_attack_direction = match player {
            Player::White => Direction::NorthWest,
            Player::Black => Direction::SouthWest,
        };
        let res = self.shift(west_attack_direction);
        proof {
            assert(west_attack_direction.file_delta() == -1 && west_attack_direction.rank_delta() == pawn_forward(player));
        }
        res
    }

    /// Calculate the pawn east attacks mask for a given mask of pawn attacker(s)
    pub fn pawn_east_attacks(self, player: Player) -> (res: BoardMask)
        ensures
            forall|t: int| 0 <= t < 64 ==> res.has(t) == #[trigger] self.came_from(t, 1, pawn_forward(player)),
    {
        let east_attack_direction = match player {
            Player::White => Direction::NorthEast,
            Player::Black => Direction::SouthEast,
        };
        let res = self.shift(east_attack_direction);
        proof {
            assert(east_attack_direction.file_delta() == 1 && east_attack_direction.rank_delta() == pawn_forward(player));
        }
        res
    }

    /// Calculate the pawn attacks mask for a given mask of pawn attacker(s)
    pub fn pawn_attacks(self, player: Player) -> (res: BoardMask)
        ensures
            forall|t: int| 0 <= t < 64 ==> res.has(t) == #[trigger] pawn_attacked(self, player, t),
    {
        let east = self.pawn_east_attacks(player);
        let west = self.pawn_west_attacks(player);
        let res = east | west;
        proof {
            assert forall|t: int| 0 <= t < 64 implies res.has(t) == #[trigger] pawn_attacked(self, player, t) by {
                lemma_bit_ops(east.0, west.0, t);
            }
        }
        res
    }

    /// Calculate the single pawn push mask for a given mask of pawns
    pub fn pawn_push(self, player: Player) -> (res: BoardMask)
        ensures
            forall|t: int| 0 <= t < 64 ==> res.has(t) == #[trigger] self.came_from(t, 0, pawn_forward(player)),
    {
        let direction = match player {
            Player::White => Direction::North,
            Player::Black => Direction::South,
        };
        let res = self.shift(direction);
        proof {
            assert(direction.file_delta() == 0 && direction.rank_delta() == pawn_forward(player));
        }
        res
    }
}

/// If `t` is attacked diagonally forward by a pawn of the mask owned by `player`
pub open spec fn pawn_attacked(mask: BoardMask, player: Player, t: int) -> bool {
    mask.came_from(t, 1, pawn_forward(player)) || mask.came_from(t, -1, pawn_forward(player))
}


/// `t` is reached from a slider of `sliders` exactly `n` steps back along `direction`,
/// with `t` and every square strictly between it and the slider unoccupied
pub open spec fn slide_reach(sliders: BoardMask, occupied: BoardMask, t: int, direction: Direction, n: nat) -> bool
    decreases n,
{
    if n == 0 {
        sliders.has(t)
    } else {
        !occupied.has(t) && match offset_square(t, -direction.file_delta(), -direction.rank_delta()) {
            Some(u) => slide_reach(sliders, occupied, u, direction, (n - 1) as nat),
            None => false,
        }
    }
}

/// `t` is reached from a slider of `sliders` fewer than `n` steps back along `direction` (see [`slide_reach`])
pub open spec fn slide_reach_below(sliders: BoardMask, occupied: BoardMask, t: int, direction: Direction, n: nat) -> bool
    decreases n,
{
    if n == 0 {
        false
    } else {
        slide_reach_below(sliders, occupied, t, direction, (n - 1) as nat)
            || slide_reach(sliders, occupied, t, direction, (n - 1) as nat)
    }
}

/// `t` is attacked by a slider of `sliders` moving along `direction` on a board with `occupied` squares:
/// a slider lies some steps behind `t` along `direction` and every square strictly between them is unoccupied
pub open spec fn slide_attacked(sliders: BoardMask, occupied: BoardMask, t: int, direction: Direction) -> bool {
    match offset_square(t, -direction.file_delta(), -direction.rank_delta()) {
        Some(u) => slide_reach_below(sliders, occupied, u, direction, 8),
        None => false,
    }
}

/// `t` is attacked by a rook-like slider of `sliders` (along a rank or file)
pub open spec fn cardinal_attacked(sliders: BoardMask, occupied: BoardMask, t: int) -> bool {
    ||| slide_attacked(sliders, occupied, t, Direction::North)
    ||| slide_attacked(sliders, occupied, t, Direction::South)
    ||| slide_attacked(sliders, occupied, t, Direction::East)
    ||| slide_attacked(sliders, occupied, t, Direction::West)
}

/// `t` is attacked by a bishop-like slider of `sliders` (along a diagonal)
pub open spec fn ordinal_attacked(sliders: BoardMask, occupied: BoardMask, t: int) -> bool {
    ||| slide_attacked(sliders, occupied, t, Direction::NorthEast)
    ||| slide_attacked(sliders, occupied, t, Direction::NorthWest)
    ||| slide_attacked(sliders, occupied, t, Direction::SouthEast)
    ||| slide_attacked(sliders, occupied, t, Direction::SouthWest)
}

/// A square on the board has its file and rank in range, and a step to another square moves its file and rank
pub proof fn lemma_offset_square(i: int, df: int, dr: int)
    requires
        0 <= i < 64,
    ensures
        offset_square(i, df, dr) matches Some(j) ==> {
            &&& 0 <= j < 64
            &&& index_file(j) == index_file(i) + df
            &&& index_rank(j) == index_rank(i) + dr
        },
        0 <= index_file(i) < 8,
        0 <= index_rank(i) < 8,
        index_rank(i) * 8 + index_file(i) == i,
{
}

/// A square reached `n` steps from a slider lies `n` steps from the slider's file and rank,
/// so it can only be reached by fewer than 8 steps
pub proof fn lemma_slide_reach_bound(sliders: BoardMask, occupied: BoardMask, t: int, direction: Direction, n: nat)
    requires
        0 <= t < 64,
        slide_reach(sliders, occupied, t, direction, n),
    ensures
        0 <= index_file(t) - n * direction.file_delta() < 8,
        0 <= index_rank(t) - n * direction.rank_delta() < 8,
        n < 8,
    decreases n,
{
    lemma_offset_square(t, -direction.file_delta(), -direction.rank_delta());
    if n > 0 {
        let u = offset_square(t, -direction.file_delta(), -direction.rank_delta())->0;
        lemma_slide_reach_bound(sliders, occupied, u, direction, (n - 1) as nat);
        assert(n * direction.file_delta() == (n - 1) * direction.file_delta() + direction.file_delta()) by (nonlinear_arith);
        assert(n * direction.rank_delta() == (n - 1) * direction.rank_delta() + direction.rank_delta()) by (nonlinear_arith);
    }
    let d = if direction.rank_delta() != 0 { direction.rank_delta() } else { direction.file_delta() };
    assert(n * d == n || n * d == -n) by (nonlinear_arith)
        requires
            d == 1 || d == -1,
    ;
}

/// When no square is reached at `n` steps, no square is reached at any later step
proof fn lemma_slide_reach_stops(sliders: BoardMask, occupied: BoardMask, direction: Direction, n: nat, j: nat, t: int)
    requires
        forall|u: int| 0 <= u < 64 ==> !slide_reach(sliders, occupied, u, direction, n),
        n <= j,
        0 <= t < 64,
    ensures
        !slide_reach(sliders, occupied, t, direction, j),
    decreases j,
{
    if j > n {
        lemma_offset_square(t, -direction.file_delta(), -direction.rank_delta());
        if let Some(u) = offset_square(t, -direction.file_delta(), -direction.rank_delta()) {
            lemma_slide_reach_stops(sliders, occupied, direction, n, (j - 1) as nat, u);
        }
    }
}

/// Reaching below a later step adds nothing once no square is reached any more
proof fn lemma_slide_reach_below_stable(sliders: BoardMask, occupied: BoardMask, direction: Direction, n: nat, m: nat, t: int)
    requires
        forall|u: int| 0 <= u < 64 ==> !slide_reach(sliders, occupied, u, direction, n),
        n <= m,
        0 <= t < 64,
    ensures
        slide_reach_below(sliders, occupied, t, direction, m) == slide_reach_below(sliders, occupied, t, direction, n),
    decreases m,
{
    if m > n {
        lemma_slide_reach_below_stable(sliders, occupied, direction, n, (m - 1) as nat, t);
        lemma_slide_reach_stops(sliders, occupied, direction, n, (m - 1) as nat, t);
    }
}

impl BoardMask {
    /// Flood the mask along a direction through the unoccupied squares: every square reachable from a
    /// square of the mask by stepping along the direction while only passing through (and landing on) unoccupied squares
    fn occluded_fill(self, occupied: BoardMask, direction: Direction) -> (res: BoardMask)
        ensures
            forall|t: int| 0 <= t < 64 ==> res.has(t) == #[trigger] slide_reach_below(self, occupied, t, direction, 8),
    {
        let empty = BoardMask(!occupied.0);
        let mut flood = BoardMask::empty();
        let mut cur = self;
        let ghost mut n: nat = 0;
        while !cur.is_empty()
            invariant
                n <= 8,
                forall|t: int| 0 <= t < 64 ==> cur.has(t) == slide_reach(self, occupied, t, direction, n),
                forall|t: int| 0 <= t < 64 ==> flood.has(t) == slide_reach_below(self, occupied, t, direction, n),
                empty.0 == !occupied.0,
            decreases 8 - n,
        {
            proof {
                let t = choose|i: int| 0 <= i < 64 && cur.has(i);
                lemma_slide_reach_bound(self, occupied, t, direction, n);
            }
            let prev_cur = cur;
            let prev_flood = flood;
            flood = flood | cur;
            let shifted = cur.shift(direction);
            cur = shifted & empty;
            proof {
                assert(flood.0 == (prev_flood.0 | prev_cur.0));
                assert forall|t: int| 0 <= t < 64 implies flood.has(t) == slide_reach_below(self, occupied, t, direction, n + 1) by {
                    assert(prev_flood.has(t) == slide_reach_below(self, occupied, t, direction, n));
                    assert(prev_cur.has(t) == slide_reach(self, occupied, t, direction, n));
                    lemma_bit_ops(prev_flood.0, prev_cur.0, t);
                    assert(slide_reach_below(self, occupied, t, direction, n + 1) == (slide_reach_below(self, occupied, t, direction, n)
                        || slide_reach(self, occupied, t, direction, n)));
                }
                assert forall|t: int| 0 <= t < 64 implies cur.has(t) == slide_reach(self, occupied, t, direction, n + 1) by {
                    lemma_bit_ops(shifted.0, empty.0, t);
                    lemma_bit_ops(occupied.0, occupied.0, t);
                    lemma_offset_square(t, -direction.file_delta(), -direction.rank_delta());
                    assert(shifted.has(t) == prev_cur.came_from(t, direction.file_delta(), direction.rank_delta()));
                }
                n = n + 1;
            }
        }
        proof {
            assert forall|u: int| 0 <= u < 64 implies !slide_reach(self, occupied, u, direction, n) by {
                assert(!cur.has(u));
            }
            assert forall|t: int| 0 <= t < 64 implies flood.has(t) == #[trigger] slide_reach_below(self, occupied, t, direction, 8) by {
                lemma_slide_reach_below_stable(self, occupied, direction, n, 8, t);
            }
        }
        flood
    }

    /// The squares attacked by the sliders of the mask moving along a direction, stopping at (and including) the first occupied square
    pub fn sliding_attacks(self, occupied: BoardMask, direction: Direction) -> (res: BoardMask)
        ensures
            forall|t: int| 0 <= t < 64 ==> res.has(t) == #[trigger] slide_attacked(self, occupied, t, direction),
    {
        let flood = self.occluded_fill(occupied, direction);
        let res = flood.shift(direction);
        proof {
            assert forall|t: int| 0 <= t < 64 implies res.has(t) == #[trigger] slide_attacked(self, occupied, t, direction) by {
                lemma_offset_square(t, -direction.file_delta(), -direction.rank_delta());
                assert(res.has(t) == flood.came_from(t, direction.file_delta(), direction.rank_delta()));
            }
        }
        res
    }

    /// Get the cardinal (rook) ray/sliding attacks for a given mask of sliders and occupied squares mask
    pub fn cardinal_sliding_attacks(self, occupied: BoardMask) -> (res: BoardMask)
        ensures
            forall|t: int| 0 <= t < 64 ==> res.has(t) == #[trigger] cardinal_attacked(self, occupied, t),
    {
        let north = self.sliding_attacks(occupied, Direction::North);
        let south = self.sliding_attacks(occupied, Direction::South);
        let east = self.sliding_attacks(occupied, Direction::East);
        let west = self.sliding_attacks(occupied, Direction::West);
        let res = north | south | east | west;
        proof {
            assert forall|t: int| 0 <= t < 64 implies res.has(t) == #[trigger] cardinal_attacked(self, occupied, t) by {
                lemma_bit_ops(north.0, south.0, t);
                lemma_bit_ops(north.0 | south.0, east.0, t);
                lemma_bit_ops(north.0 | south.0 | east.0, west.0, t);
            }
        }
        res
    }

    /// Get the diagonal (bishop) ray/sliding attacks for a given mask of sliders and occupied squares mask
    pub fn ordinal_sliding_attacks(self, occupied: BoardMask) -> (res: BoardMask)
        ensures
            forall|t: int| 0 <= t < 64 ==> res.has(t) == #[trigger] ordinal_attacked(self, occupied, t),
    {
        let north_east = self.sliding_attacks(occupied, Direction::NorthEast);
        let north_west = self.sliding_attacks(occupied, Direction::NorthWest);
        let south_east = self.sliding_attacks(occupied, Direction::SouthEast);
        let south_west = self.sliding_attacks(occupied, Direction::SouthWest);
        let res = north_east | north_west | south_east | south_west;
        proof {
            assert forall|t: int| 0 <= t < 64 implies res.has(t) == #[trigger] ordinal_attacked(self, occupied, t) by {
                lemma_bit_ops(north_east.0, north_west.0, t);
                lemma_bit_ops(north_east.0 | north_west.0, south_east.0, t);
                lemma_bit_ops(north_east.0 | north_west.0 | south_east.0, south_west.0, t);
            }
        }
        res
    }
}


/// The squares a sliding piece on `square` attacks on a board with `occupied` squares
pub open spec fn sliding_piece_attacked(piece: SlidingPieceType, square: Square, occupied: BoardMask, t: int) -> bool {
    let slider = BoardMask::single(sq_index(square));
    match piece {
        SlidingPieceType::Bishop => ordinal_attacked(slider, occupied, t),
        SlidingPieceType::Rook => cardinal_attacked(slider, occupied, t),
        SlidingPieceType::Queen => ordinal_attacked(slider, occupied, t) || cardinal_attacked(slider, occupied, t),
    }
}

/// The squares a non-pawn piece alone on `square` attacks
pub open spec fn pseudo_attacked(piece: NonPawnPieceType, square: Square, t: int) -> bool {
    let mask = BoardMask::single(sq_index(square));
    match piece {
        NonPawnPieceType::Knight => knight_attacked(mask, t),
        NonPawnPieceType::Bishop => ordinal_attacked(mask, mask, t),
        NonPawnPieceType::Rook => cardinal_attacked(mask, mask, t),
        NonPawnPieceType::Queen => ordinal_attacked(mask, mask, t) || cardinal_attacked(mask, mask, t),
        NonPawnPieceType::King => king_attacked(mask, t),
    }
}

/// The sign of an integer
pub open spec fn sign(x: int) -> int {
    if x > 0 {
        1
    } else if x < 0 {
        -1
    } else {
        0
    }
}

/// The absolute value of an integer
pub open spec fn abs(x: int) -> int {
    if x < 0 {
        -x
    } else {
        x
    }
}

/// The unit (file, rank) step from board index `a` towards `b`, when `b` is another square
/// on a rank, file or diagonal through `a`
pub open spec fn line_step(a: int, b: int) -> Option<(int, int)> {
    let df = index_file(b) - index_file(a);
    let dr = index_rank(b) - index_rank(a);
    if a != b && (df == 0 || dr == 0 || abs(df) == abs(dr)) {
        Some((sign(df), sign(dr)))
    } else {
        None
    }
}

/// How many king steps apart two board indices are
pub open spec fn king_distance(a: int, b: int) -> int {
    let df = abs(index_file(b) - index_file(a));
    let dr = abs(index_rank(b) - index_rank(a));
    if df < dr {
        dr
    } else {
        df
    }
}

/// Board index `i` lies strictly between `a` and `b` on the rank, file or diagonal they share
pub open spec fn strictly_between(a: int, b: int, i: int) -> bool {
    &&& line_step(a, b) is Some
    &&& line_step(a, i) == line_step(a, b)
    &&& king_distance(a, i) < king_distance(a, b)
}

/// Board index `c` lies on the whole line (rank, file or diagonal) through the distinct squares `a` and `b`
pub open spec fn on_line(a: int, b: int, c: int) -> bool {
    line_step(a, b) matches Some((sf, sr)) && (c == a || line_step(a, c) == Some((sf, sr)) || line_step(a, c) == Some((-sf, -sr)))
}

fn exec_sign(x: i8) -> (res: i8)
    ensures
        res == sign(x as int),
{
    if x > 0 {
        1
    } else if x < 0 {
        -1
    } else {
        0
    }
}

fn exec_abs(x: i8) -> (res: i8)
    requires
        x > -100,
    ensures
        res == abs(x as int),
{
    if x < 0 {
        -x
    } else {
        x
    }
}

/// The unit step from `a` towards `b`, if aligned
fn exec_line_step(a: u8, b: u8) -> (res: Option<(i8, i8)>)
    requires
        a < 64,
        b < 64,
    ensures
        res matches Some((f, r)) ==> line_step(a as int, b as int) == Some((f as int, r as int)),
        res is None ==> line_step(a as int, b as int) is None,
{
    let df = (b % 8) as i8 - (a % 8) as i8;
    let dr = (b / 8) as i8 - (a / 8) as i8;
    if a != b && (df == 0 || dr == 0 || exec_abs(df) == exec_abs(dr)) {
        Some((exec_sign(df), exec_sign(dr)))
    } else {
        None
    }
}

/// The king distance between two board indices
fn exec_king_distance(a: u8, b: u8) -> (res: i8)
    requires
        a < 64,
        b < 64,
    ensures
        res == king_distance(a as int, b as int),
{
    let df = exec_abs((b % 8) as i8 - (a % 8) as i8);
    let dr = exec_abs((b / 8) as i8 - (a / 8) as i8);
    if df < dr {
        dr
    } else {
        df
    }
}

/// Build the mask of the board indices for which a condition holds; the condition is given by its exact values
fn mask_between(a: u8, b: u8) -> (res: BoardMask)
    requires
        a < 64,
        b < 64,
    ensures
        forall|i: int| 0 <= i < 64 ==> res.has(i) == (i == b || strictly_between(a as int, b as int, i)),
{
    let step = exec_line_step(a, b);
    let distance = exec_king_distance(a, b);
    let mut bits: u64 = 0;
    let mut i: u8 = 0;
    proof {
        assert forall|j: int| 0 <= j < 64 implies !BoardMask(bits).has(j) by {
            lemma_bit_ops(0, 0, j);
        }
    }
    while i < 64
        invariant
            i <= 64,
            a < 64,
            b < 64,
            step matches Some((f, r)) ==> line_step(a as int, b as int) == Some((f as int, r as int)),
            step is None ==> line_step(a as int, b as int) is None,
            distance == king_distance(a as int, b as int),
            forall|j: int| 0 <= j < i ==> BoardMask(bits).has(j) == (j == b || strictly_between(a as int, b as int, j)),
            forall|j: int| i <= j < 64 ==> !BoardMask(bits).has(j),
        decreases 64 - i,
    {
        let included = i == b || match step {
            Some(s) => exec_line_step(a, i) == Some(s) && exec_king_distance(a, i) < distance,
            None => false,
        };
        let prev = bits;
        if included {
            bits = bits | (1u64 << i as u64);
        }
        proof {
            assert forall|j: int| 0 <= j < 64 implies BoardMask(bits).has(j) == (if j == i { included } else { BoardMask(prev).has(j) }) by {
                lemma_bit_ops(prev, 1u64 << (i as u64), j);
                crate::bitboard::lemma_single_bit(i as int, j);
            }
        }
        i = i + 1;
    }
    BoardMask(bits)
}

/// If `c` lies on the line through `a` and `b`
fn exec_on_line(a: u8, b: u8, c: u8) -> (res: bool)
    requires
        a < 64,
        b < 64,
        c < 64,
    ensures
        res == on_line(a as int, b as int, c as int),
{
    match exec_line_step(a, b) {
        Some((sf, sr)) => {
            let towards = exec_line_step(a, c);
            c == a || towards == Some((sf, sr)) || towards == Some((-sf, -sr))
        },
        None => false,
    }
}

impl BoardMask {
    /// Get the attack mask for a sliding piece on a [`Square`] on an occupied board
    pub fn sliding_attacks_for(piece: SlidingPieceType, square: Square, occupied: BoardMask) -> (res: BoardMask)
        ensures
            forall|t: int| 0 <= t < 64 ==> res.has(t) == #[trigger] sliding_piece_attacked(piece, square, occupied, t),
    {
        let slider = square.to_mask();
        match piece {
            SlidingPieceType::Bishop => slider.ordinal_sliding_attacks(occupied),
            SlidingPieceType::Rook => slider.cardinal_sliding_attacks(occupied),
            SlidingPieceType::Queen => {
                let rook = slider.cardinal_sliding_attacks(occupied);
                let bishop = slider.ordinal_sliding_attacks(occupied);
                let res = rook | bishop;
                proof {
                    assert forall|t: int| 0 <= t < 64 implies res.has(t) == #[trigger] sliding_piece_attacked(piece, square, occupied, t) by {
                        lemma_bit_ops(rook.0, bishop.0, t);
                    }
                }
                res
            },
        }
    }

    /// Get the attack mask for a non-pawn piece on a [`Square`] on an otherwise empty board
    pub fn pseudo_attacks_for(piece: NonPawnPieceType, square: Square) -> (res: BoardMask)
        ensures
            forall|t: int| 0 <= t < 64 ==> res.has(t) == #[trigger] pseudo_attacked(piece, square, t),
    {
        let mask = square.to_mask();
        match piece {
            NonPawnPieceType::Knight => mask.knight_attacks(),
            NonPawnPieceType::Bishop => mask.ordinal_sliding_attacks(mask),
            NonPawnPieceType::Rook => mask.cardinal_sliding_attacks(mask),
            NonPawnPieceType::Queen => {
                let ordinal = mask.ordinal_sliding_attacks(mask);
                let cardinal = mask.cardinal_sliding_attacks(mask);
                let res = ordinal | cardinal;
                proof {
                    assert forall|t: int| 0 <= t < 64 implies res.has(t) == #[trigger] pseudo_attacked(piece, square, t) by {
                        lemma_bit_ops(ordinal.0, cardinal.0, t);
                    }
                }
                res
            },
            NonPawnPieceType::King => mask.king_attacks(),
        }
    }

    /// The squares strictly between `from` and `to` on the rank, file or diagonal they share,
    /// together with `to` itself (just `to` when the squares are not aligned)
    pub fn line_between(from: Square, to: Square) -> (res: BoardMask)
        ensures
            forall|i: int| 0 <= i < 64 ==> res.has(i) == (i == sq_index(to) || strictly_between(sq_index(from), sq_index(to), i)),
    {
        mask_between(from.index(), to.index())
    }

    /// If the three squares lie on one rank, file or diagonal (`c` on the line through the distinct squares `a` and `b`)
    pub fn is_aligned(a: Square, b: Square, c: Square) -> (res: bool)
        ensures
            res == on_line(sq_index(a), sq_index(b), sq_index(c)),
    {
        exec_on_line(a.index(), b.index(), c.index())
    }
}

} // verus!
