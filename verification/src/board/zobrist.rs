use vstd::prelude::*;

use crate::piece_type::{piece_index, PieceType};
use crate::player::{player_index, Player};
use crate::sided_piece::SidedPiece;
use crate::square::{lemma_square_index_range, sq_index, Square};

verus! {

/// The raw hash value for a chess position
pub type ZobristInner = u64;

/// The base key for an empty featureless position
pub const EMPTY_ZOBRIST_KEY: ZobristInner = 0x5C6D_3A1F_8E29_B047;

/// The key numbered `index`: a 64 bit mix (split-mix) of the number, so that keys look independent
pub open spec fn spec_zobrist_key(index: u64) -> u64 {
    let z0 = (index.wrapping_add(1)).wrapping_mul(0x9E37_79B9_7F4A_7C15u64);
    let z1 = (z0 ^ (z0 >> 30u64)).wrapping_mul(0xBF58_476D_1CE4_E5B9u64);
    let z2 = (z1 ^ (z1 >> 27u64)).wrapping_mul(0x94D0_49BB_1331_11EBu64);
    z2 ^ (z2 >> 31u64)
}

/// The key number of a piece placed on a square
pub open spec fn piece_square_key_index(square: Square, piece: SidedPiece) -> u64 {
    (sq_index(square) * 12 + player_index(piece.player) * 6 + piece_index(piece.piece_type)) as u64
}

/// The key of a piece placed on a square
pub open spec fn spec_piece_square_key(square: Square, piece: SidedPiece) -> u64 {
    spec_zobrist_key(piece_square_key_index(square, piece))
}

/// The key toggled when the side to move changes
pub open spec fn spec_side_key() -> u64 {
    spec_zobrist_key(768)
}

/// The key of an en-passant square
pub open spec fn spec_en_passant_key(square: Square) -> u64 {
    spec_zobrist_key((769 + sq_index(square)) as u64)
}

/// The key of a side's ability to castle in one direction
pub open spec fn spec_castle_key(side: Player, king_side: bool) -> u64 {
    spec_zobrist_key((833 + player_index(side) * 2 + if king_side { 0int } else { 1int }) as u64)
}

/// Compute the key numbered `index`
fn zobrist_key(index: u64) -> (res: u64)
    ensures
        res == spec_zobrist_key(index),
{
    let z0 = (index.wrapping_add(1)).wrapping_mul(0x9E37_79B9_7F4A_7C15u64);
    let z1 = (z0 ^ (z0 >> 30u64)).wrapping_mul(0xBF58_476D_1CE4_E5B9u64);
    let z2 = (z1 ^ (z1 >> 27u64)).wrapping_mul(0x94D0_49BB_1331_11EBu64);
    z2 ^ (z2 >> 31u64)
}

/// Positional hasher based on board features.
/// The same position arrived at through different sets of moves will still have the same Zobrist hash.
/// This is because the only features relevant to this hash are stateless, or can be interpreted as
/// the board's state:
/// - Side to move
/// - Pieces placed on squares
/// - En-passant square if any
/// - Castle rights for both sides
#[derive(Copy, Clone, Debug, PartialEq, Eq, Structural)]
pub struct ZobristHasher(ZobristInner);

impl ZobristHasher {
    /// The current hash value
    pub closed spec fn value(&self) -> u64 {
        self.0
    }

    /// Hashers with the same value are equal
    pub proof fn lemma_ext(a: Self, b: Self)
        requires
            a.value() == b.value(),
        ensures
            a == b,
    {
    }

    /// The default base key for an empty featureless position
    pub fn empty() -> (res: Self)
        ensures
            res.value() == EMPTY_ZOBRIST_KEY,
    {
        Self(EMPTY_ZOBRIST_KEY)
    }

    fn toggle(&mut self, mask: ZobristInner)
        ensures
            final(self).value() == old(self).value() ^ mask,
    {
        self.write_u64(mask);
    }

    /// Toggle the placement of a piece on a given square for a given side.
    /// Adds the piece placement to the hash; otherwise, removes the piece if it is already included.
    pub fn toggle_piece_square(&mut self, square: Square, piece: SidedPiece)
        ensures
            final(self).value() == old(self).value() ^ spec_piece_square_key(square, piece),
    {
        proof {
            lemma_square_index_range(square);
        }
        let index = square.index() as u64 * 12 + piece.player.index() as u64 * 6 + piece.piece_type.index() as u64;
        self.toggle(zobrist_key(index));
    }

    /// Toggle the side to move between white and black.
    pub fn switch_sides(&mut self)
        ensures
            final(self).value() == old(self).value() ^ spec_side_key(),
    {
        self.toggle(zobrist_key(768));
    }

    /// Toggle an en-passant square.
    pub fn toggle_en_passant_square(&mut self, square: Square)
        ensures
            final(self).value() == old(self).value() ^ spec_en_passant_key(square),
    {
        proof {
            lemma_square_index_range(square);
        }
        self.toggle(zobrist_key(769 + square.index() as u64));
    }

    /// Toggle the castle rights for a side to castle in one direction
    pub fn toggle_castle_ability(&mut self, side: Player, king_side: bool)
        ensures
            final(self).value() == old(self).value() ^ spec_castle_key(side, king_side),
    {
        let direction: u64 = if king_side { 0 } else { 1 };
        self.toggle(zobrist_key(833 + side.index() as u64 * 2 + direction));
    }

    /// The debugging text of the hasher: its name and its value in upper case hexadecimal
    pub fn to_debug_string(&self) -> (res: String)
        ensures
            res@ == "ZobristHasher(\"0x"@ + crate::text::spec_hex(self.value() as nat) + "\")"@,
    {
        let mut text = String::from_str("ZobristHasher(\"0x");
        text.append(crate::text::u64_to_hex_string(self.0).as_str());
        text.append("\")");
        text
    }

    /// Get the pre-computed hash value
    pub fn finish(&self) -> (res: u64)
        ensures
            res == self.value(),
    {
        self.0
    }

    /// Toggle a 64 bit key into the hash (exclusive or)
    pub fn write_u64(&mut self, i: u64)
        ensures
            final(self).value() == old(self).value() ^ i,
    {
        self.0 = self.0 ^ i;
    }
}

/// Toggling several keys one after another toggles them grouped together
pub proof fn lemma_toggle_grouping(h: u64, a: u64, b: u64, c: u64, d: u64)
    ensures
        (h ^ a) ^ b == h ^ (a ^ b),
        ((h ^ a) ^ b) ^ c == h ^ ((a ^ b) ^ c),
        (((h ^ a) ^ b) ^ c) ^ d == h ^ (((a ^ b) ^ c) ^ d),
{
    assert((h ^ a) ^ b == h ^ (a ^ b) && ((h ^ a) ^ b) ^ c == h ^ ((a ^ b) ^ c)
        && (((h ^ a) ^ b) ^ c) ^ d == h ^ (((a ^ b) ^ c) ^ d)) by (bit_vector);
}

/// Toggling nothing leaves a hash unchanged
pub proof fn lemma_toggle_zero(h: u64)
    ensures
        h ^ 0u64 == h,
{
    assert(h ^ 0u64 == h) by (bit_vector);
}

/// Toggling the same key twice leaves a hash unchanged, and toggles may be done in any order
pub proof fn lemma_toggle_laws(value: u64, a: u64, b: u64)
    ensures
        (value ^ a) ^ a == value,
        (value ^ a) ^ b == (value ^ b) ^ a,
{
    assert((value ^ a) ^ a == value && (value ^ a) ^ b == (value ^ b) ^ a) by (bit_vector);
}

} // verus!
