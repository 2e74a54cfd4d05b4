//! An ordered map keyed by sector id.
//!
//! Batch proving calls must receive sectors in a deterministic order, so the
//! replica map keeps its entries sorted by ascending sector id. Inserting an
//! already-present id overwrites the earlier value (last wins), matching the
//! plain map-insert semantics of the foreign boundary.

use vstd::prelude::*;
use vstd::seq_lib::*;

verus! {

/// The last-wins interpretation of a sequence of key-value pairs: the map
/// that results from inserting the pairs in order into an empty map.
pub open spec fn kv_map<V>(s: Seq<(u64, V)>) -> Map<u64, V>
    decreases s.len(),
{
    if s.len() == 0 {
        Map::empty()
    } else {
        kv_map(s.drop_last()).insert(s.last().0, s.last().1)
    }
}

/// The keys of a sequence of key-value pairs, in sequence order.
pub open spec fn keys_of<V>(s: Seq<(u64, V)>) -> Seq<u64> {
    s.map_values(|p: (u64, V)| p.0)
}

/// True when the pairs are sorted by strictly ascending key.
pub open spec fn sorted_by_key<V>(s: Seq<(u64, V)>) -> bool {
    forall|i: int, j: int| 0 <= i < j < s.len() ==> s[i].0 < s[j].0
}

/// True when `keys` is sorted in strictly ascending order.
pub open spec fn strictly_ascending(keys: Seq<u64>) -> bool {
    forall|i: int, j: int| 0 <= i < j < keys.len() ==> keys[i] < keys[j]
}

/// The interpreted map has exactly one entry per distinct key of the input:
/// its domain is the set of keys that occur, however often each occurs.
pub proof fn lemma_kv_map_dom<V>(s: Seq<(u64, V)>)
    ensures
        kv_map(s).dom() == keys_of(s).to_set(),
    decreases s.len(),
{
    if s.len() == 0 {
        assert(keys_of(s).to_set() =~= Set::<u64>::empty());
    } else {
        lemma_kv_map_dom(s.drop_last());
        assert(keys_of(s.drop_last()) =~= keys_of(s).drop_last());
        assert forall|k: u64| keys_of(s).to_set().contains(k) implies kv_map(s).dom().contains(
            k,
        ) by {
            let i = choose|i: int| 0 <= i < keys_of(s).len() && keys_of(s)[i] == k;
            if i < s.len() - 1 {
                assert(keys_of(s).drop_last()[i] == k);
                assert(keys_of(s).drop_last().contains(k));
            }
        }
        assert forall|k: u64| kv_map(s).dom().contains(k) implies keys_of(s).to_set().contains(
            k,
        ) by {
            if k == s.last().0 {
                assert(keys_of(s)[s.len() - 1] == k);
            } else {
                let i = choose|i: int|
                    0 <= i < keys_of(s).drop_last().len() && keys_of(s).drop_last()[i] == k;
                assert(keys_of(s)[i] == k);
            }
        }
        assert(kv_map(s).dom() =~= keys_of(s).to_set());
    }
}

/// The interpreted map never holds more entries than the input has: each
/// distinct key contributes one entry, duplicates collapse.
pub proof fn lemma_kv_map_size_bound<V>(s: Seq<(u64, V)>)
    ensures
        kv_map(s).dom().len() <= s.len(),
{
    lemma_kv_map_dom(s);
    keys_of(s).lemma_cardinality_of_set();
}

/// When the keys are strictly ascending (hence distinct), the interpreted
/// map sends each key of the sequence to the value paired with it.
pub proof fn lemma_kv_map_index<V>(s: Seq<(u64, V)>, i: int)
    requires
        sorted_by_key(s),
        0 <= i < s.len(),
    ensures
        kv_map(s).contains_key(s[i].0),
        kv_map(s)[s[i].0] == s[i].1,
    decreases s.len(),
{
    if i == s.len() - 1 {
    } else {
        assert(s[i].0 < s[s.len() - 1].0);
        lemma_kv_map_index(s.drop_last(), i);
    }
}

/// Last wins: when position `i` holds the final occurrence of its key in the
/// input sequence, the interpreted map pairs that key with the value at `i`.
/// In particular, of two entries with the same sector id, the lexically
/// later one determines the mapped value.
pub proof fn lemma_last_entry_wins<V>(s: Seq<(u64, V)>, i: int)
    requires
        0 <= i < s.len(),
        forall|j: int| i < j < s.len() ==> s[j].0 != s[i].0,
    ensures
        kv_map(s).contains_key(s[i].0),
        kv_map(s)[s[i].0] == s[i].1,
    decreases s.len(),
{
    if i == s.len() - 1 {
    } else {
        lemma_last_entry_wins(s.drop_last(), i);
        assert(s.last().0 != s[i].0);
    }
}

/// A map from sector ids to per-sector values, iterated in ascending id
/// order. The abstract value (the view) is a `Map<u64, V>`; `wf` says the
/// concrete entries are sorted by strictly ascending id.
#[derive(Debug)]
pub struct SectorMap<V> {
    entries: Vec<(u64, V)>,
}

impl<V> View for SectorMap<V> {
    type V = Map<u64, V>;

    closed spec fn view(&self) -> Map<u64, V> {
        kv_map(self.entries@)
    }
}

impl<V> SectorMap<V> {
    /// The concrete entries, as a mathematical sequence.
    pub closed spec fn entries_seq(&self) -> Seq<(u64, V)> {
        self.entries@
    }

    /// Well-formed: entries sorted by strictly ascending sector id.
    pub open spec fn wf(&self) -> bool {
        sorted_by_key(self.entries_seq())
    }

    /// The view is the last-wins interpretation of the entries.
    pub proof fn lemma_view_is_kv_map(&self)
        ensures
            self@ == kv_map(self.entries_seq()),
    {
    }

    /// An empty map.
    pub fn new() -> (m: Self)
        ensures
            m.wf(),
            m@ == Map::<u64, V>::empty(),
            m.entries_seq().len() == 0,
    {
        SectorMap { entries: Vec::new() }
    }

    /// How many sectors the map holds. Distinctness of the sorted keys makes
    /// this also the cardinality of the view's domain.
    pub fn len(&self) -> (n: usize)
        requires
            self.wf(),
        ensures
            n == self.entries_seq().len(),
            n == self@.dom().len(),
    {
        proof {
            lemma_kv_map_dom(self.entries@);
            assert(keys_of(self.entries@).no_duplicates()) by {
                assert(forall|i: int, j: int|
                    0 <= i < j < self.entries@.len() ==> keys_of(self.entries@)[i] != keys_of(
                        self.entries@,
                    )[j]);
            }
            keys_of(self.entries@).unique_seq_to_set();
        }
        self.entries.len()
    }

    /// Insert `value` under `key`, overwriting any earlier value (last
    /// wins), and keeping the entries sorted.
    pub fn insert(&mut self, key: u64, value: V)
        requires
            old(self).wf(),
        ensures
            final(self).wf(),
            final(self)@ == old(self)@.insert(key, value),
    {
        let n = self.entries.len();
        let mut idx: usize = 0;
        while idx < n && self.entries[idx].0 < key
            invariant
                idx <= n,
                n == self.entries.len(),
                self == old(self),
                forall|k: int| 0 <= k < idx ==> self.entries@[k].0 < key,
            decreases n - idx,
        {
            idx = idx + 1;
        }
        let ghost s = self.entries@;
        if idx < n && self.entries[idx].0 == key {
            vstd::pervasive::VecAdditionalExecFns::set(&mut self.entries, idx, (key, value));
            proof {
                lemma_sorted_replace(s, idx as int, value);
            }
        } else {
            proof {
                assert forall|k: int| idx <= k < s.len() implies s[k].0 > key by {
                    if k > idx {
                        assert(s[idx as int].0 < s[k].0);
                    }
                }
            }
            self.entries.insert(idx, (key, value));
            proof {
                lemma_sorted_insert(s, idx as int, key, value);
            }
        }
    }

    /// Look up the value stored under `key`.
    pub fn get(&self, key: u64) -> (r: Option<&V>)
        requires
            self.wf(),
        ensures
            match r {
                Some(v) => self@.contains_key(key) && *v == self@[key],
                None => !self@.contains_key(key),
            },
    {
        proof {
            lemma_kv_map_dom(self.entries@);
        }
        let n = self.entries.len();
        let mut idx: usize = 0;
        while idx < n
            invariant
                idx <= n,
                n == self.entries.len(),
                self.wf(),
                forall|k: int| 0 <= k < idx ==> self.entries@[k].0 != key,
            decreases n - idx,
        {
            if self.entries[idx].0 == key {
                proof {
                    lemma_kv_map_index(self.entries@, idx as int);
                }
                return Some(&self.entries[idx].1);
            }
            idx = idx + 1;
        }
        proof {
            lemma_kv_map_dom(self.entries@);
            if self@.contains_key(key) {
                let i = choose|i: int|
                    0 <= i < keys_of(self.entries@).len() && keys_of(self.entries@)[i] == key;
                assert(self.entries@[i].0 == key);
            }
        }
        None
    }

    /// The sector ids in iteration order: strictly ascending, and together
    /// they are exactly the domain of the map.
    pub fn keys(&self) -> (r: Vec<u64>)
        requires
            self.wf(),
        ensures
            r@ == keys_of(self.entries_seq()),
            strictly_ascending(r@),
            r@.to_set() == self@.dom(),
    {
        proof {
            lemma_kv_map_dom(self.entries@);
        }
        let n = self.entries.len();
        let mut r: Vec<u64> = Vec::new();
        let mut idx: usize = 0;
        while idx < n
            invariant
                idx <= n,
                n == self.entries.len(),
                r@ == keys_of(self.entries@).take(idx as int),
            decreases n - idx,
        {
            r.push(self.entries[idx].0);
            proof {
                assert(r@ =~= keys_of(self.entries@).take(idx + 1));
            }
            idx = idx + 1;
        }
        proof {
            assert(r@ =~= keys_of(self.entries@));
            assert forall|i: int, j: int| 0 <= i < j < r@.len() implies r@[i] < r@[j] by {
                assert(r@[i] == self.entries@[i].0);
                assert(r@[j] == self.entries@[j].0);
            }
        }
        r
    }

    /// Borrow the entries in iteration order: ascending by sector id, one
    /// per distinct id, each id paired with its mapped value.
    pub fn entries(&self) -> (r: &Vec<(u64, V)>)
        ensures
            r@ == self.entries_seq(),
    {
        &self.entries
    }
}

/// Replacing the value at `i` (same key) inserts into the interpreted map
/// and preserves sortedness.
proof fn lemma_sorted_replace<V>(s: Seq<(u64, V)>, i: int, value: V)
    requires
        sorted_by_key(s),
        0 <= i < s.len(),
    ensures
        sorted_by_key(s.update(i, (s[i].0, value))),
        kv_map(s.update(i, (s[i].0, value))) == kv_map(s).insert(s[i].0, value),
    decreases s.len(),
{
    let key = s[i].0;
    let t = s.update(i, (key, value));
    assert(sorted_by_key(t)) by {
        assert forall|a: int, b: int| 0 <= a < b < t.len() implies t[a].0 < t[b].0 by {
            assert(s[a].0 < s[b].0);
        }
    }
    if i == s.len() - 1 {
        assert(t.drop_last() =~= s.drop_last());
        assert(t.last() == (key, value));
        assert(kv_map(s).insert(key, value) =~= kv_map(s.drop_last()).insert(key, value));
    } else {
        let s1 = s.drop_last();
        let last = s.last();
        assert(sorted_by_key(s1)) by {
            assert forall|a: int, b: int| 0 <= a < b < s1.len() implies s1[a].0 < s1[b].0 by {
                assert(s[a].0 < s[b].0);
            }
        }
        assert(s1[i] == s[i]);
        assert(t.drop_last() =~= s1.update(i, (key, value)));
        lemma_sorted_replace(s1, i, value);
        assert(t.last() == last);
        assert(kv_map(t) == kv_map(s1).insert(key, value).insert(last.0, last.1));
        assert(last.0 != key);
        assert(kv_map(s1).insert(key, value).insert(last.0, last.1) =~= kv_map(s1).insert(
            last.0,
            last.1,
        ).insert(key, value));
        assert(kv_map(s) == kv_map(s1).insert(last.0, last.1));
    }
}

/// Inserting a fresh pair at its sorted position inserts into the
/// interpreted map and preserves sortedness.
proof fn lemma_sorted_insert<V>(s: Seq<(u64, V)>, i: int, key: u64, value: V)
    requires
        sorted_by_key(s),
        0 <= i <= s.len(),
        forall|k: int| 0 <= k < i ==> s[k].0 < key,
        forall|k: int| i <= k < s.len() ==> s[k].0 > key,
    ensures
        sorted_by_key(s.insert(i, (key, value))),
        kv_map(s.insert(i, (key, value))) == kv_map(s).insert(key, value),
    decreases s.len(),
{
    let t = s.insert(i, (key, value));
    assert(t.len() == s.len() + 1);
    assert(forall|k: int| 0 <= k < i ==> t[k] == s[k]);
    assert(t[i] == (key, value));
    assert(forall|k: int| i < k < t.len() ==> t[k] == s[k - 1]);
    assert(sorted_by_key(t)) by {
        assert forall|a: int, b: int| 0 <= a < b < t.len() implies t[a].0 < t[b].0 by {
            if a < i {
                assert(t[a] == s[a]);
            } else if a > i {
                assert(t[a] == s[a - 1]);
            }
            if b < i {
                assert(t[b] == s[b]);
            } else if b > i {
                assert(t[b] == s[b - 1]);
            }
        }
    }
    if i == s.len() {
        assert(t.drop_last() =~= s);
        assert(t.last() == (key, value));
    } else {
        let s1 = s.drop_last();
        let last = s.last();
        assert(last.0 > key);
        assert(t.drop_last() =~= s1.insert(i, (key, value)));
        lemma_sorted_insert(s1, i, key, value);
        assert(t.last() == last);
        assert(kv_map(t) == kv_map(s1).insert(key, value).insert(last.0, last.1));
        assert(kv_map(s1).insert(key, value).insert(last.0, last.1) =~= kv_map(s1).insert(
            last.0,
            last.1,
        ).insert(key, value));
        assert(kv_map(s) == kv_map(s1).insert(last.0, last.1));
    }
}

} // verus!
