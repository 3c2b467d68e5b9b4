use vstd::prelude::*;

use core::convert::From;
use vstd::std_specs::convert::FromSpecImpl;

verus! {

/// A positional hash value for a chess position
#[derive(Copy, Clone, Debug, PartialEq, Eq, Structural, Hash)]
pub struct ZobristHash(u64);

/// A truncated (8 bit) positional hash kept in a position's history for repetition checks
#[derive(Copy, Clone, Debug, PartialEq, Eq, Structural, PartialOrd, Ord, Hash)]
pub struct HistoryHash(u8);

/// The big-endian 64 bit value of the eight bytes from `start`
pub open spec fn spec_be_u64(bytes: Seq<u8>, start: int) -> u64 {
    ((bytes[start] as u64) << 56u64) | ((bytes[start + 1] as u64) << 48u64) | ((bytes[start + 2] as u64) << 40u64)
        | ((bytes[start + 3] as u64) << 32u64) | ((bytes[start + 4] as u64) << 24u64) | ((bytes[start + 5] as u64)
        << 16u64) | ((bytes[start + 6] as u64) << 8u64) | (bytes[start + 7] as u64)
}

/// The exclusive or of the big-endian values of the first `n` groups of eight bytes
pub open spec fn spec_chunks_key(bytes: Seq<u8>, n: int) -> u64
    decreases n,
{
    if n <= 0 {
        0
    } else {
        spec_chunks_key(bytes, n - 1) ^ spec_be_u64(bytes, 8 * (n - 1))
    }
}

impl ZobristHash {
    /// The raw hash value
    pub closed spec fn value(&self) -> u64 {
        self.0
    }

    /// Create a hash from its raw value
    pub fn new(value: u64) -> (res: Self)
        ensures
            res.value() == value,
    {
        Self(value)
    }

    /// The raw hash value
    pub fn into_inner(self) -> (res: u64)
        ensures
            res == self.value(),
    {
        self.0
    }

    /// The computed hash value
    pub fn finish(&self) -> (res: u64)
        ensures
            res == self.value(),
    {
        self.0
    }

    /// Toggle a 64 bit key into the hash (exclusive or)
    pub fn write_u64(&mut self, i: u64)
        ensures
            final(self).value() == old(self).value() ^ i,
    {
        self.0 = self.0 ^ i;
    }

    /// Toggle bytes into the hash: each whole group of eight bytes, read as a big-endian 64 bit key, in turn;
    /// bytes left over after the last whole group are ignored
    pub fn write(&mut self, bytes: &[u8])
        ensures
            final(self).value() == old(self).value() ^ spec_chunks_key(bytes@, bytes@.len() as int / 8),
    {
        let len = bytes.len();
        let chunks = len / 8;
        let mut k: usize = 0;
        proof {
            crate::board::zobrist::lemma_toggle_zero(self.value());
        }
        while k < chunks
            invariant
                k <= chunks,
                len == bytes@.len(),
                chunks == len / 8,
                self.value() == old(self).value() ^ spec_chunks_key(bytes@, k as int),
            decreases chunks - k,
        {
            assert(8 * k + 8 <= len) by (nonlinear_arith)
                requires
                    k < chunks,
                    chunks == len / 8,
            ;
            let i = 8 * k;
            let chunk = ((bytes[i] as u64) << 56) | ((bytes[i + 1] as u64) << 48) | ((bytes[i + 2] as u64) << 40)
                | ((bytes[i + 3] as u64) << 32) | ((bytes[i + 4] as u64) << 24) | ((bytes[i + 5] as u64) << 16)
                | ((bytes[i + 6] as u64) << 8) | (bytes[i + 7] as u64);
            proof {
                crate::board::zobrist::lemma_toggle_grouping(old(self).value(), spec_chunks_key(bytes@, k as int), chunk, 0, 0);
            }
            self.write_u64(chunk);
            k += 1;
        }
    }

    /// The hash of a featureless (empty) position
    pub fn default() -> (res: Self)
        ensures
            res.value() == 0xF1DC_4349_4EA4_76CEu64,
    {
        Self(0xF1DC_4349_4EA4_76CE)
    }

    /// If the history hash is the truncation of this hash
    pub fn eq_history(&self, other: &HistoryHash) -> (res: bool)
        ensures
            res == (HistoryHash::spec_from(*self) == *other),
    {
        HistoryHash::from_hash(*self) == *other
    }
}

impl HistoryHash {
    /// The raw (truncated) hash value
    pub closed spec fn value(&self) -> u8 {
        self.0
    }

    /// The history hash of a positional hash: its lowest 8 bits
    pub closed spec fn spec_from(hash: ZobristHash) -> HistoryHash {
        HistoryHash(hash.0 as u8)
    }

    /// The history hash with a raw value
    pub closed spec fn spec_new(value: u8) -> HistoryHash {
        HistoryHash(value)
    }

    /// A history hash is the one with its raw value, and the history hash with a raw value has that value
    pub proof fn lemma_value(hash: HistoryHash, value: u8)
        ensures
            HistoryHash::spec_new(hash.value()) == hash,
            HistoryHash::spec_new(value).value() == value,
    {
    }

    /// The raw (truncated) hash value
    pub fn raw_value(&self) -> (res: u8)
        ensures
            res == self.value(),
    {
        self.0
    }

    /// Create a history hash from its raw value
    pub fn new(value: u8) -> (res: Self)
        ensures
            res.value() == value,
            res == Self::spec_new(value),
    {
        Self(value)
    }

    /// Truncate a positional hash to its lowest 8 bits, still enough to tell recent positions apart
    pub fn from_hash(hash: ZobristHash) -> (res: Self)
        ensures
            res == Self::spec_from(hash),
            res.value() == hash.value() as u8,
    {
        Self(hash.0 as u8)
    }
}

/// Toggling the same key twice leaves the hash unchanged
pub proof fn lemma_toggle_twice(value: u64, key: u64)
    ensures
        (value ^ key) ^ key == value,
{
    assert((value ^ key) ^ key == value) by (bit_vector);
}

impl From<ZobristHash> for HistoryHash {
    fn from(hash: ZobristHash) -> (res: HistoryHash) {
        HistoryHash::from_hash(hash)
    }
}

impl FromSpecImpl<ZobristHash> for HistoryHash {
    open spec fn obeys_from_spec() -> bool {
        true
    }

    open spec fn from_spec(hash: ZobristHash) -> HistoryHash {
        HistoryHash::spec_from(hash)
    }
}

} // verus!
