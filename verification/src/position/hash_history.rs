use vstd::prelude::*;

use crate::zobrist::{HistoryHash, ZobristHash};
use std::collections::{BTreeMap, VecDeque};
use vstd::std_specs::btree::increasing_seq;
use vstd::std_specs::cmp::OrdSpec;
use vstd::std_specs::iter::IteratorSpec;

verus! {

broadcast use vstd::std_specs::btree::group_btree_axioms, vstd::laws_cmp::group_laws_cmp;

/// The number of half moves without a capture or pawn move after which the game is drawn
pub const HALF_MOVE_LIMIT: usize = 100;

/// A hash container for keeping track of previously visited positions (for repetition checks)
#[derive(Clone, Debug, PartialEq, Eq)]
pub struct HashHistory(VecDeque<HistoryHash>);

/// How many of the first `n` entries of a history are a given hash
pub open spec fn occurrences(history: Seq<HistoryHash>, hash: HistoryHash, n: int) -> nat
    decreases n,
{
    if n <= 0 {
        0
    } else {
        occurrences(history, hash, n - 1) + if history[n - 1] == hash {
            1nat
        } else {
            0nat
        }
    }
}

/// The history after pushing a hash: the oldest hash leaves a full history, and the new one comes last
pub open spec fn spec_pushed(history: Seq<HistoryHash>, hash: ZobristHash) -> Seq<HistoryHash> {
    (if history.len() == HALF_MOVE_LIMIT {
        history.drop_first()
    } else {
        history
    }).push(HistoryHash::spec_from(hash))
}

/// The history after popping: the most recent hash leaves, if there is one
pub open spec fn spec_popped(history: Seq<HistoryHash>) -> Seq<HistoryHash> {
    if history.len() == 0 {
        history
    } else {
        history.drop_last()
    }
}

/// Pushing a hash onto a history that is not full and popping it again gives the history back
pub proof fn lemma_push_then_pop(history: Seq<HistoryHash>, hash: ZobristHash)
    requires
        history.len() < HALF_MOVE_LIMIT,
    ensures
        spec_popped(spec_pushed(history, hash)) == history,
{
    assert(spec_pushed(history, hash).drop_last() =~= history);
}

/// A history holding at most [`HALF_MOVE_LIMIT`] hashes still does after a push, and the pushed hash is the latest
pub proof fn lemma_push_keeps_limit(history: Seq<HistoryHash>, hash: ZobristHash)
    requires
        history.len() <= HALF_MOVE_LIMIT,
    ensures
        spec_pushed(history, hash).len() <= HALF_MOVE_LIMIT,
        spec_pushed(history, hash).last() == HistoryHash::spec_from(hash),
{
}

/// The hashes of the first `n` key and count pairs of a walk over counts whose count is at least `times`, in walk order
spec fn counted_at_least(walk: Seq<(u8, usize)>, times: u8, n: int) -> Seq<HistoryHash>
    decreases n,
{
    if n <= 0 {
        Seq::empty()
    } else {
        counted_at_least(walk, times, n - 1) + if walk[n - 1].1 >= times {
            seq![HistoryHash::spec_new(walk[n - 1].0)]
        } else {
            Seq::empty()
        }
    }
}

/// Over a walk in strictly increasing key order, the hashes counted at least `times` times come in strictly increasing
/// order of value, below every later key, and are those of the keys walked whose count is at least `times`
proof fn lemma_counted_at_least(walk: Seq<(u8, usize)>, times: u8, n: int)
    requires
        0 <= n <= walk.len(),
        forall|i: int, j: int| 0 <= i < j < walk.len() ==> #[trigger] walk[i].0 < #[trigger] walk[j].0,
    ensures
        forall|k: int, m: int| 0 <= k < counted_at_least(walk, times, n).len() && n <= m < walk.len()
            ==> #[trigger] counted_at_least(walk, times, n)[k].value() < #[trigger] walk[m].0,
        forall|i: int, j: int| 0 <= i < j < counted_at_least(walk, times, n).len()
            ==> #[trigger] counted_at_least(walk, times, n)[i].value() < #[trigger] counted_at_least(walk, times, n)[j].value(),
        forall|h: HistoryHash| #[trigger] counted_at_least(walk, times, n).contains(h)
            <==> exists|j: int| 0 <= j < n && #[trigger] walk[j].0 == h.value() && walk[j].1 >= times,
    decreases n,
{
    if n > 0 {
        lemma_counted_at_least(walk, times, n - 1);
        let prev = counted_at_least(walk, times, n - 1);
        let hash = HistoryHash::spec_new(walk[n - 1].0);
        HistoryHash::lemma_value(hash, walk[n - 1].0);
        let r = counted_at_least(walk, times, n);
        let tail = if walk[n - 1].1 >= times { seq![hash] } else { Seq::<HistoryHash>::empty() };
        assert(r == prev + tail);
        assert forall|k: int, m: int| 0 <= k < r.len() && n <= m < walk.len() implies #[trigger] r[k].value() < #[trigger] walk[m].0 by {
            assert(walk[n - 1].0 < walk[m].0);
            if k < prev.len() {
                assert(r[k] == prev[k]);
                assert(prev[k].value() < walk[m].0);
            }
        }
        assert forall|i: int, j: int| 0 <= i < j < r.len() implies #[trigger] r[i].value() < #[trigger] r[j].value() by {
            assert(r[i] == prev[i]);
            if j < prev.len() {
                assert(r[j] == prev[j]);
            } else {
                assert(prev[i].value() < walk[n - 1].0);
            }
        }
        assert forall|h: HistoryHash| #[trigger] r.contains(h)
            <==> exists|j: int| 0 <= j < n && #[trigger] walk[j].0 == h.value() && walk[j].1 >= times by {
            HistoryHash::lemma_value(h, 0);
            if r.contains(h) {
                let k = choose|k: int| 0 <= k < r.len() && r[k] == h;
                if k < prev.len() {
                    assert(prev[k] == h);
                    assert(prev.contains(h));
                } else {
                    assert(walk[n - 1].0 == h.value());
                }
            }
            if exists|j: int| 0 <= j < n && #[trigger] walk[j].0 == h.value() && walk[j].1 >= times {
                let j = choose|j: int| 0 <= j < n && #[trigger] walk[j].0 == h.value() && walk[j].1 >= times;
                if j < n - 1 {
                    assert(prev.contains(h));
                    let k = choose|k: int| 0 <= k < prev.len() && prev[k] == h;
                    assert(r[k] == h);
                } else {
                    assert(h == hash);
                    assert(r[prev.len() as int] == h);
                }
            }
        }
    }
}

/// At most `n` of the first `n` entries of a history are a given hash
proof fn lemma_occurrences_bound(history: Seq<HistoryHash>, hash: HistoryHash, n: int)
    requires
        0 <= n,
    ensures
        occurrences(history, hash, n) <= n,
    decreases n,
{
    if n > 0 {
        lemma_occurrences_bound(history, hash, n - 1);
    }
}

/// A sequence increasing by comparison of its values increases by value
proof fn lemma_increasing_keys(keys: Seq<u8>)
    requires
        increasing_seq(keys),
    ensures
        forall|i: int, j: int| 0 <= i < j < keys.len() ==> #[trigger] keys[i] < #[trigger] keys[j],
{
    assert forall|i: int, j: int| 0 <= i < j < keys.len() implies #[trigger] keys[i] < #[trigger] keys[j] by {
        assert(keys[i].cmp_spec(&keys[j]) is Less);
    }
}

impl HashHistory {
    /// The hashes held, oldest first
    pub closed spec fn view(&self) -> Seq<HistoryHash> {
        self.0@
    }

    /// Create a new empty [`HashHistory`] container
    pub fn new() -> (res: Self)
        ensures
            res.view() == Seq::<HistoryHash>::empty(),
    {
        Self(VecDeque::with_capacity(HALF_MOVE_LIMIT))
    }

    /// Push a new hash to the history, popping the oldest entry if beyond [`HALF_MOVE_LIMIT`]
    pub fn push(&mut self, hash: ZobristHash)
        ensures
            final(self).view() == spec_pushed(old(self).view(), hash),
    {
        // Keep the history limited to HALF_MOVE_LIMIT and just shift earlier moves out
        if self.0.len() == HALF_MOVE_LIMIT {
            self.0.pop_front();
        }
        let hash = HistoryHash::from_hash(hash);
        self.0.push_back(hash);
    }

    /// Remove the most recently added hash
    pub fn pop(&mut self)
        ensures
            final(self).view() == spec_popped(old(self).view()),
    {
        self.0.pop_back();
    }

    /// Clear the whole hash history because a non-reversible move has been made; meaning, all prior positions cannot be repeated anymore
    pub fn clear(&mut self)
        ensures
            final(self).view() == Seq::<HistoryHash>::empty(),
    {
        self.0.clear();
    }

    /// The distinct hashes seen at least `N` times (and at least once), in increasing order of value: counted in an
    /// ordered map from each hash's value to its number of occurrences
    pub fn repetitions<const N: u8>(&self) -> (res: Vec<HistoryHash>)
        ensures
            forall|h: HistoryHash| #[trigger] res@.contains(h) <==> (occurrences(self.view(), h, self.view().len() as int) > 0
                && occurrences(self.view(), h, self.view().len() as int) >= N),
            forall|i: int, j: int| 0 <= i < j < res@.len() ==> #[trigger] res@[i].value() < #[trigger] res@[j].value(),
    {
        let history = &self.0;
        let ghost view = self.view();
        let mut counts: BTreeMap<u8, usize> = BTreeMap::new();
        let mut index: usize = 0;
        while index < history.len()
            invariant
                index <= history@.len(),
                history@ == view,
                view == self.view(),
                forall|v: u8| #[trigger] counts@.contains_key(v) <==> occurrences(view, HistoryHash::spec_new(v), index as int) > 0,
                forall|v: u8| counts@.contains_key(v) ==> #[trigger] counts@[v] == occurrences(view, HistoryHash::spec_new(v), index as int),
            decreases history@.len() - index,
        {
            let value = history[index].raw_value();
            proof {
                HistoryHash::lemma_value(view[index as int], value);
                lemma_occurrences_bound(view, view[index as int], index as int);
            }
            let count: usize = match counts.get(&value) {
                Some(count) => *count + 1,
                None => 1,
            };
            counts.insert(value, count);
            proof {
                assert forall|v: u8| #[trigger] counts@.contains_key(v)
                    <==> occurrences(view, HistoryHash::spec_new(v), index + 1) > 0 by {
                    HistoryHash::lemma_value(HistoryHash::spec_new(v), v);
                }
                assert forall|v: u8| counts@.contains_key(v)
                    implies #[trigger] counts@[v] == occurrences(view, HistoryHash::spec_new(v), index + 1) by {
                    HistoryHash::lemma_value(HistoryHash::spec_new(v), v);
                }
            }
            index += 1;
        }
        let walk = counts.iter();
        let ghost pairs = walk.remaining();
        proof {
            lemma_increasing_keys(pairs.map_values(|kv: (&u8, &usize)| *kv.0));
        }
        let mut res: Vec<HistoryHash> = Vec::new();
        for (value, count) in it: walk
            invariant
                it.seq() == pairs,
                res@ == counted_at_least(pairs.unref(), N, it.index()),
        {
            if *count >= N as usize {
                res.push(HistoryHash::new(*value));
            }
        }
        proof {
            let w = pairs.unref();
            assert forall|i: int, j: int| 0 <= i < j < w.len() implies #[trigger] w[i].0 < #[trigger] w[j].0 by {
                assert(pairs.map_values(|kv: (&u8, &usize)| *kv.0)[i] == w[i].0);
                assert(pairs.map_values(|kv: (&u8, &usize)| *kv.0)[j] == w[j].0);
            }
            lemma_counted_at_least(w, N, w.len() as int);
            assert forall|h: HistoryHash| #[trigger] res@.contains(h) <==> (occurrences(view, h, view.len() as int) > 0
                && occurrences(view, h, view.len() as int) >= N) by {
                HistoryHash::lemma_value(h, 0);
                let v = h.value();
                if counts@.contains_key(v) && counts@[v] >= N {
                    assert(pairs.contains((&v, &counts@[v])));
                    let j = choose|j: int| 0 <= j < pairs.len() && pairs[j] == (&v, &counts@[v]);
                    assert(w[j].0 == v && w[j].1 >= N);
                }
                if exists|j: int| 0 <= j < w.len() && #[trigger] w[j].0 == v && w[j].1 >= N {
                    let j = choose|j: int| 0 <= j < w.len() && #[trigger] w[j].0 == v && w[j].1 >= N;
                    assert(counts@.contains_key(*pairs[j].0) && counts@[*pairs[j].0] == *pairs[j].1);
                }
            }
        }
        res
    }
}

impl Default for HashHistory {
    fn default() -> (res: Self)
        ensures
            res.view() == Seq::<HistoryHash>::empty(),
    {
        Self::new()
    }
}

} // verus!
