use vstd::prelude::*;

use crate::square::{index_file, index_rank, lemma_index_square_at, lemma_square_index_injective, lemma_square_index_range, sq_index, square_at, Square};
use core::ops::{BitAnd, BitOr, BitXor, Not};
use vstd::std_specs::ops::{BitAndSpecImpl, BitOrSpecImpl, BitXorSpecImpl, NotSpecImpl};

mod attacks;
mod direction;
pub mod symmetry;

pub use attacks::{
    abs, cardinal_attacked, king_attacked, king_distance, knight_attacked, lemma_offset_square, line_step,
    on_line, ordinal_attacked, pawn_attacked, pawn_forward, pseudo_attacked, sign, slide_attacked, slide_reach,
    slide_reach_below, sliding_piece_attacked, spec_shift_bits, strictly_between,
};
pub use direction::{CardinalDirection, Direction, OrdinalDirection};

verus! {

/// Board mask with single bits representing squares on a 64 tile board.
///
/// Bit `i` of the mask is set when the square with index `i` (see [`Square::index`]) is in the mask.
#[derive(Copy, Clone, Debug, PartialEq, Eq, Structural, PartialOrd, Ord, Hash, Default)]
pub struct BoardMask(pub u64);

/// The raw bitboard name used by the board representation
pub type Bitboard = BoardMask;

/// If bit `i` of `x` is set
pub open spec fn bit_of(x: u64, i: int) -> bool {
    (x >> (i as u64)) & 1u64 == 1u64
}

/// The square `df` files and `dr` ranks away from board index `i`, if that square is on the board
pub open spec fn offset_square(i: int, df: int, dr: int) -> Option<int> {
    let f = index_file(i) + df;
    let r = index_rank(i) + dr;
    if 0 <= f < 8 && 0 <= r < 8 {
        Some(r * 8 + f)
    } else {
        None
    }
}

impl BoardMask {
    /// If the square with board index `i` is in the mask
    pub open spec fn has(self, i: int) -> bool {
        0 <= i < 64 && bit_of(self.0, i)
    }

    /// If a square is in the mask
    pub open spec fn contains(self, sq: Square) -> bool {
        self.has(sq_index(sq))
    }

    /// The mask with only the square at board index `i`
    pub open spec fn single(i: int) -> BoardMask {
        BoardMask(1u64 << (i as u64))
    }

    /// The squares in the mask
    pub open spec fn squares(self) -> Set<Square> {
        Set::new(|sq: Square| self.contains(sq))
    }

    /// If the board square `df` files and `dr` ranks *before* board index `t` is in the mask,
    /// ie. a piece of this mask moving `df` files and `dr` ranks would land on `t`
    pub open spec fn came_from(self, t: int, df: int, dr: int) -> bool {
        match offset_square(t, -df, -dr) {
            Some(s) => self.has(s),
            None => false,
        }
    }
}

/// The number of set bits among the lowest `n` bits of `x`
pub open spec fn count_bits(x: u64, n: nat) -> nat
    decreases n,
{
    if n == 0 {
        0
    } else {
        count_bits(x, (n - 1) as nat) + if bit_of(x, n - 1) {
            1nat
        } else {
            0nat
        }
    }
}

/// Single-bit facts about the bitwise operators
pub proof fn lemma_bit_ops(x: u64, y: u64, i: int)
    requires
        0 <= i < 64,
    ensures
        bit_of(x & y, i) == (bit_of(x, i) && bit_of(y, i)),
        bit_of(x | y, i) == (bit_of(x, i) || bit_of(y, i)),
        bit_of(x ^ y, i) == (bit_of(x, i) != bit_of(y, i)),
        bit_of(!x, i) == !bit_of(x, i),
        bit_of(1u64 << (i as u64), i),
        bit_of(0u64, i) == false,
        bit_of(0xFFFF_FFFF_FFFF_FFFFu64, i),
{
    let k = i as u64;
    assert(k < 64 ==> {
        &&& ((((x & y) >> k) & 1u64 == 1u64) == (((x >> k) & 1u64 == 1u64) && ((y >> k) & 1u64 == 1u64)))
        &&& ((((x | y) >> k) & 1u64 == 1u64) == (((x >> k) & 1u64 == 1u64) || ((y >> k) & 1u64 == 1u64)))
        &&& ((((x ^ y) >> k) & 1u64 == 1u64) == (((x >> k) & 1u64 == 1u64) != ((y >> k) & 1u64 == 1u64)))
        &&& ((((!x) >> k) & 1u64 == 1u64) == !((x >> k) & 1u64 == 1u64))
        &&& (((1u64 << k) >> k) & 1u64 == 1u64)
        &&& ((0u64 >> k) & 1u64) == 0u64
        &&& ((0xFFFF_FFFF_FFFF_FFFFu64 >> k) & 1u64) == 1u64
    }) by (bit_vector);
}

/// A single bit word has exactly that one bit set
pub proof fn lemma_single_bit(i: int, j: int)
    requires
        0 <= i < 64,
        0 <= j < 64,
    ensures
        bit_of(1u64 << (i as u64), j) == (i == j),
{
    let (a, b) = (i as u64, j as u64);
    assert(a < 64 && b < 64 ==> ((((1u64 << a) >> b) & 1u64 == 1u64) == (a == b))) by (bit_vector);
}

/// Bits of two masks agree on every square exactly when the masks are equal
pub proof fn lemma_mask_ext(a: BoardMask, b: BoardMask)
    requires
        forall|i: int| 0 <= i < 64 ==> a.has(i) == b.has(i),
    ensures
        a == b,
{
    let x = a.0 ^ b.0;
    assert forall|i: u64| i < 64 implies #[trigger] ((x >> i) & 1u64) == 0u64 by {
        assert(a.has(i as int) == b.has(i as int));
        let (p, q) = (a.0, b.0);
        assert(((p >> i) & 1u64 == 1u64) == ((q >> i) & 1u64 == 1u64) ==> ((p ^ q) >> i) & 1u64
            == 0u64) by (bit_vector);
    }
    lemma_zero_bits(x);
    let (p, q) = (a.0, b.0);
    assert(p ^ q == 0u64 ==> p == q) by (bit_vector);
}

/// A word whose every bit is clear is zero
proof fn lemma_zero_bits(x: u64)
    requires
        forall|i: u64| i < 64 ==> #[trigger] ((x >> i) & 1u64) == 0u64,
    ensures
        x == 0,
{
    assert(forall|i: u64| i < 64 ==> #[trigger] ((x >> i) & 1u64) == 0u64);
    assert(x == 0) by {
        lemma_zero_bits_chunk(x, 0);
        lemma_zero_bits_chunk(x, 16);
        lemma_zero_bits_chunk(x, 32);
        lemma_zero_bits_chunk(x, 48);
        assert((x & 0xFFFFu64) == 0 && ((x >> 16u64) & 0xFFFFu64) == 0 && ((x >> 32u64)
            & 0xFFFFu64) == 0 && ((x >> 48u64) & 0xFFFFu64) == 0 ==> x == 0) by (bit_vector);
    }
}

/// Sixteen clear bits starting at `start` make a clear sixteen bit chunk
proof fn lemma_zero_bits_chunk(x: u64, start: u64)
    requires
        start == 0 || start == 16 || start == 32 || start == 48,
        forall|i: u64| i < 64 ==> #[trigger] ((x >> i) & 1u64) == 0u64,
    ensures
        start == 0 ==> (x & 0xFFFFu64) == 0,
        start != 0 ==> ((x >> start) & 0xFFFFu64) == 0,
{
    let y = x >> start;
    assert forall|j: u64| j < 16 implies #[trigger] ((y >> j) & 1u64) == 0u64 by {
        assert((x >> (start + j) as u64) & 1u64 == 0u64);
        assert(start <= 48 && j < 16 ==> ((x >> start) >> j) == (x >> (start + j) as u64))
            by (bit_vector);
    }
    let (c0, c1, c2, c3) = ((y >> 0u64) & 1u64, (y >> 1u64) & 1u64, (y >> 2u64) & 1u64, (y >> 3u64) & 1u64);
    let (c4, c5, c6, c7) = ((y >> 4u64) & 1u64, (y >> 5u64) & 1u64, (y >> 6u64) & 1u64, (y >> 7u64) & 1u64);
    let (c8, c9, c10, c11) = ((y >> 8u64) & 1u64, (y >> 9u64) & 1u64, (y >> 10u64) & 1u64, (y >> 11u64) & 1u64);
    let (c12, c13, c14, c15) = ((y >> 12u64) & 1u64, (y >> 13u64) & 1u64, (y >> 14u64) & 1u64, (y >> 15u64) & 1u64);
    assert(c0 == 0 && c1 == 0 && c2 == 0 && c3 == 0 && c4 == 0 && c5 == 0 && c6 == 0 && c7 == 0);
    assert(c8 == 0 && c9 == 0 && c10 == 0 && c11 == 0 && c12 == 0 && c13 == 0 && c14 == 0 && c15 == 0);
    assert(((y >> 0u64) & 1u64) == 0 && ((y >> 1u64) & 1u64) == 0 && ((y >> 2u64) & 1u64) == 0
        && ((y >> 3u64) & 1u64) == 0 && ((y >> 4u64) & 1u64) == 0 && ((y >> 5u64) & 1u64) == 0
        && ((y >> 6u64) & 1u64) == 0 && ((y >> 7u64) & 1u64) == 0 && ((y >> 8u64) & 1u64) == 0
        && ((y >> 9u64) & 1u64) == 0 && ((y >> 10u64) & 1u64) == 0 && ((y >> 11u64) & 1u64) == 0
        && ((y >> 12u64) & 1u64) == 0 && ((y >> 13u64) & 1u64) == 0 && ((y >> 14u64) & 1u64) == 0
        && ((y >> 15u64) & 1u64) == 0 ==> (y & 0xFFFFu64) == 0) by (bit_vector);
    assert(start == 0 ==> (x >> start) == x) by (bit_vector);
}

} // verus!

verus! {

impl BoardMask {
    /// An empty mask
    pub fn empty() -> (res: BoardMask)
        ensures
            res.0 == 0,
            forall|i: int| !res.has(i),
    {
        proof {
            assert forall|i: int| 0 <= i < 64 implies !BoardMask(0).has(i) by {
                lemma_bit_ops(0, 0, i);
            }
        }
        BoardMask(0)
    }

    /// An entirely activated mask (every square is set)
    pub fn full() -> (res: BoardMask)
        ensures
            res.0 == 0xFFFF_FFFF_FFFF_FFFFu64,
            forall|i: int| 0 <= i < 64 ==> res.has(i),
    {
        proof {
            assert forall|i: int| 0 <= i < 64 implies BoardMask(0xFFFF_FFFF_FFFF_FFFFu64).has(i) by {
                lemma_bit_ops(0, 0, i);
            }
        }
        BoardMask(0xFFFF_FFFF_FFFF_FFFF)
    }

    /// The mask of the squares on a rank (0 for rank 1 .. 7 for rank 8)
    pub fn rank_mask(rank: usize) -> (res: BoardMask)
        requires
            rank < 8,
        ensures
            res.0 == 0xFFu64 << (8 * rank as u64),
            forall|i: int| 0 <= i < 64 ==> (res.has(i) <==> index_rank(i) == rank),
    {
        let bits = 0xFFu64 << (8 * rank as u64);
        proof {
            assert forall|i: int| 0 <= i < 64 implies (BoardMask(bits).has(i) <==> index_rank(i) == rank) by {
                let (k, r) = (i as u64, rank as u64);
                assert(k < 64 && r < 8 ==> ((((0xFFu64 << (8 * r)) >> k) & 1u64 == 1u64) == (k / 8 == r))) by (bit_vector);
            }
        }
        BoardMask(bits)
    }

    /// The mask of the squares on a file (0 for the A file .. 7 for the H file)
    pub fn file_mask(file: usize) -> (res: BoardMask)
        requires
            file < 8,
        ensures
            res.0 == 0x0101_0101_0101_0101u64 << (file as u64),
            forall|i: int| 0 <= i < 64 ==> (res.has(i) <==> index_file(i) == file),
    {
        let bits = 0x0101_0101_0101_0101u64 << (file as u64);
        proof {
            assert forall|i: int| 0 <= i < 64 implies (BoardMask(bits).has(i) <==> index_file(i) == file) by {
                let (k, f) = (i as u64, file as u64);
                assert(k < 64 && f < 8 ==> ((((0x0101_0101_0101_0101u64 << f) >> k) & 1u64 == 1u64) == (k % 8 == f))) by (bit_vector);
            }
        }
        BoardMask(bits)
    }

    /// Create a mask from its raw bits
    pub fn new(bits: u64) -> (res: BoardMask)
        ensures
            res.0 == bits,
    {
        BoardMask(bits)
    }

    /// If the current mask contains no set bits
    pub fn is_empty(self) -> (res: bool)
        ensures
            res == (self.0 == 0),
            res <==> forall|i: int| 0 <= i < 64 ==> !self.has(i),
    {
        proof {
            if self.0 == 0 {
                assert forall|i: int| 0 <= i < 64 implies !self.has(i) by {
                    lemma_bit_ops(self.0, self.0, i);
                }
            } else if forall|i: int| 0 <= i < 64 ==> !self.has(i) {
                assert forall|i: int| 0 <= i < 64 implies self.has(i) == BoardMask(0u64).has(i) by {
                    lemma_bit_ops(self.0, self.0, i);
                }
                lemma_mask_ext(self, BoardMask(0u64));
            }
        }
        self.0 == 0
    }

    /// If a square is in the mask
    pub fn has_square(self, square: Square) -> (res: bool)
        ensures
            res == self.contains(square),
    {
        proof {
            lemma_square_index_range(square);
        }
        (self.0 >> square.index() as u64) & 1 == 1
    }

    /// How many set squares the mask contains
    pub fn num_squares(&self) -> (res: u8)
        ensures
            res == count_bits(self.0, 64),
            res <= 64,
    {
        let mut count: u8 = 0;
        let mut i: u64 = 0;
        while i < 64
            invariant
                i <= 64,
                count == count_bits(self.0, i as nat),
                count <= i,
            decreases 64 - i,
        {
            if (self.0 >> i) & 1 == 1 {
                count = count + 1;
            }
            i = i + 1;
        }
        count
    }

    /// If a bit is set, return the lowest [`Square`] and unset its bit
    pub fn pop_square(&mut self) -> (res: Option<Square>)
        ensures
            old(self).0 == 0 <==> res is None,
            res is None ==> *final(self) == *old(self),
            res matches Some(sq) ==> {
                &&& old(self).contains(sq)
                &&& forall|i: int| 0 <= i < sq_index(sq) ==> !old(self).has(i)
                &&& final(self).0 == old(self).0 ^ (1u64 << (sq_index(sq) as u64))
                &&& forall|i: int| 0 <= i < 64 ==> final(self).has(i) == (old(self).has(i) && i != sq_index(sq))
            },
    {
        proof {
            vstd::std_specs::bits::axiom_u64_trailing_zeros(self.0);
        }
        let square_offset = self.0.trailing_zeros();
        if square_offset >= 64 {
            return None;
        }
        let square = Square::SQUARES[square_offset as usize];
        proof {
            lemma_index_square_at(square_offset as int);
        }
        let ghost prev = *self;
        self.0 = self.0 ^ (1u64 << square_offset as u64);
        proof {
            assert forall|i: int| 0 <= i < 64 implies self.has(i) == (prev.has(i) && i != square_offset) by {
                lemma_bit_ops(prev.0, 1u64 << (square_offset as u64), i);
                lemma_single_bit(square_offset as int, i);
            }
            assert forall|i: int| 0 <= i < sq_index(square) implies !prev.has(i) by {
                assert(((prev.0 >> (i as u64)) & 1u64) == 0u64);
            }
        }
        Some(square)
    }

    /// The mask's bits as upper case hexadecimal digits, after `0x` in the alternate form
    pub fn to_hex_string(self, alternate: bool) -> (res: String)
        ensures
            res@ == (if alternate { "0x"@ } else { Seq::<char>::empty() }) + crate::text::spec_hex(self.0 as nat),
    {
        let digits = crate::text::u64_to_hex_string(self.0);
        if alternate {
            let mut text = String::from_str("0x");
            text.append(digits.as_str());
            text
        } else {
            proof {
                assert(Seq::<char>::empty() + digits@ =~= digits@);
            }
            digits
        }
    }

    /// The squares set in the mask, from the lowest index to the highest
    pub fn squares_vec(self) -> (res: Vec<Square>)
        ensures
            forall|j: int| 0 <= j < res@.len() ==> self.contains(#[trigger] res@[j]),
            forall|sq: Square| self.contains(sq) ==> res@.contains(sq),
            forall|j: int, k: int| 0 <= j < k < res@.len() ==> sq_index(res@[j]) < sq_index(res@[k]),
    {
        let mut remaining = self;
        let mut squares: Vec<Square> = Vec::new();
        while !remaining.is_empty()
            invariant
                forall|i: int| 0 <= i < 64 ==> (remaining.has(i) ==> self.has(i)),
                forall|j: int| 0 <= j < squares@.len() ==> self.contains(#[trigger] squares@[j]),
                forall|j: int| 0 <= j < squares@.len() ==> !remaining.contains(#[trigger] squares@[j]),
                forall|sq: Square| self.contains(sq) ==> (remaining.contains(sq) || squares@.contains(sq)),
                forall|j: int, k: int| 0 <= j < k < squares@.len() ==> sq_index(squares@[j]) < sq_index(squares@[k]),
                forall|j: int, i: int| 0 <= j < squares@.len() && 0 <= i < 64 && remaining.has(i) ==> sq_index(squares@[j]) < i,
            decreases count_bits(remaining.0, 64),
        {
            let ghost prev = remaining;
            let sq = remaining.pop_square();
            match sq {
                Some(s) => {
                    proof {
                        lemma_square_index_range(s);
                        lemma_count_bits_clear(prev.0, sq_index(s), 64);
                        assert forall|sq2: Square| self.contains(sq2) implies (remaining.contains(sq2) || squares@.push(s).contains(sq2)) by {
                            lemma_square_index_range(sq2);
                            if sq2 == s {
                                assert(squares@.push(s)[squares@.len() as int] == s);
                            } else if !remaining.contains(sq2) {
                                lemma_square_index_injective(sq2, s);
                                let j = squares@.index_of(sq2);
                                assert(squares@.push(s)[j] == sq2);
                            }
                        }
                    }
                    squares.push(s);
                },
                None => {},
            }
        }
        squares
    }
}

/// Clearing a set bit removes exactly one from the count of set bits
pub proof fn lemma_count_bits_clear(x: u64, b: int, n: nat)
    requires
        0 <= b < 64,
        bit_of(x, b),
        n <= 64,
    ensures
        b < n ==> count_bits(x ^ (1u64 << (b as u64)), n) + 1 == count_bits(x, n),
        b >= n ==> count_bits(x ^ (1u64 << (b as u64)), n) == count_bits(x, n),
    decreases n,
{
    if n > 0 {
        lemma_count_bits_clear(x, b, (n - 1) as nat);
        lemma_bit_ops(x, 1u64 << (b as u64), n - 1);
        lemma_single_bit(b, n - 1);
    }
}

/// Setting a clear bit adds exactly one to the count of set bits
pub proof fn lemma_count_bits_set(x: u64, b: int, n: nat)
    requires
        0 <= b < 64,
        !bit_of(x, b),
        n <= 64,
    ensures
        b < n ==> count_bits(x ^ (1u64 << (b as u64)), n) == count_bits(x, n) + 1,
        b >= n ==> count_bits(x ^ (1u64 << (b as u64)), n) == count_bits(x, n),
    decreases n,
{
    if n > 0 {
        lemma_count_bits_set(x, b, (n - 1) as nat);
        lemma_bit_ops(x, 1u64 << (b as u64), n - 1);
        lemma_single_bit(b, n - 1);
    }
}

/// There are never more set bits than bits looked at
pub proof fn lemma_count_bits_bound(x: u64, n: nat)
    ensures
        count_bits(x, n) <= n,
    decreases n,
{
    if n > 0 {
        lemma_count_bits_bound(x, (n - 1) as nat);
    }
}

impl BitAnd for BoardMask {
    type Output = BoardMask;

    fn bitand(self, rhs: BoardMask) -> (res: BoardMask) {
        BoardMask(self.0 & rhs.0)
    }
}

impl BitAndSpecImpl for BoardMask {
    open spec fn obeys_bitand_spec() -> bool {
        true
    }

    open spec fn bitand_req(self, rhs: BoardMask) -> bool {
        true
    }

    open spec fn bitand_spec(self, rhs: BoardMask) -> BoardMask {
        BoardMask(self.0 & rhs.0)
    }
}

impl BitOr for BoardMask {
    type Output = BoardMask;

    fn bitor(self, rhs: BoardMask) -> (res: BoardMask) {
        BoardMask(self.0 | rhs.0)
    }
}

impl BitOrSpecImpl for BoardMask {
    open spec fn obeys_bitor_spec() -> bool {
        true
    }

    open spec fn bitor_req(self, rhs: BoardMask) -> bool {
        true
    }

    open spec fn bitor_spec(self, rhs: BoardMask) -> BoardMask {
        BoardMask(self.0 | rhs.0)
    }
}

impl BitXor for BoardMask {
    type Output = BoardMask;

    fn bitxor(self, rhs: BoardMask) -> (res: BoardMask) {
        BoardMask(self.0 ^ rhs.0)
    }
}

impl BitXorSpecImpl for BoardMask {
    open spec fn obeys_bitxor_spec() -> bool {
        true
    }

    open spec fn bitxor_req(self, rhs: BoardMask) -> bool {
        true
    }

    open spec fn bitxor_spec(self, rhs: BoardMask) -> BoardMask {
        BoardMask(self.0 ^ rhs.0)
    }
}

impl Not for BoardMask {
    type Output = BoardMask;

    fn not(self) -> (res: BoardMask) {
        BoardMask(!self.0)
    }
}

impl NotSpecImpl for BoardMask {
    open spec fn obeys_not_spec() -> bool {
        true
    }

    open spec fn not_req(self) -> bool {
        true
    }

    open spec fn not_spec(self) -> BoardMask {
        BoardMask(!self.0)
    }
}

} // verus!
