//! A map from text keys to signed scores, kept as a sequence of entries with
//! pairwise distinct keys. Insertion overwrites an entry that carries the
//! same key; lookup of an absent key answers `None`; a full traversal visits
//! every entry exactly once.

use vstd::prelude::*;
use vstd::pervasive::VecAdditionalExecFns;
use crate::text::str_eq;

verus! {

/// The map a sequence of key/value entries denotes: a later entry overrides
/// an earlier one with the same key.
pub open spec fn map_of(entries: Seq<(Seq<char>, i32)>) -> Map<Seq<char>, i32>
    decreases entries.len(),
{
    if entries.len() == 0 {
        Map::empty()
    } else {
        map_of(entries.drop_last()).insert(entries.last().0, entries.last().1)
    }
}

/// True when no two entries carry the same key.
pub open spec fn unique_keys(entries: Seq<(Seq<char>, i32)>) -> bool {
    forall|i: int, j: int|
        0 <= i < j < entries.len() ==> (#[trigger] entries[i]).0 != (#[trigger] entries[j]).0
}

proof fn lemma_map_of_contains(entries: Seq<(Seq<char>, i32)>, k: Seq<char>)
    ensures
        map_of(entries).contains_key(k) <==> exists|i: int|
            0 <= i < entries.len() && (#[trigger] entries[i]).0 == k,
    decreases entries.len(),
{
    if entries.len() == 0 {
    } else {
        lemma_map_of_contains(entries.drop_last(), k);
        let short = entries.drop_last();
        if entries.last().0 == k {
            assert(entries[entries.len() - 1].0 == k);
        } else if map_of(short).contains_key(k) {
            let i = choose|i: int| 0 <= i < short.len() && (#[trigger] short[i]).0 == k;
            assert(entries[i].0 == k);
        } else {
            if exists|i: int| 0 <= i < entries.len() && (#[trigger] entries[i]).0 == k {
                let i = choose|i: int| 0 <= i < entries.len() && (#[trigger] entries[i]).0 == k;
                assert(i < entries.len() - 1);
                assert(short[i].0 == k);
                assert(false);
            }
        }
    }
}

proof fn lemma_map_of_value(entries: Seq<(Seq<char>, i32)>, k: Seq<char>, i: int)
    requires
        unique_keys(entries),
        0 <= i < entries.len(),
        entries[i].0 == k,
    ensures
        map_of(entries).contains_key(k),
        map_of(entries)[k] == entries[i].1,
    decreases entries.len(),
{
    if i == entries.len() - 1 {
    } else {
        let short = entries.drop_last();
        assert(entries.last().0 != k);
        assert(unique_keys(short)) by {
            assert(forall|m: int| 0 <= m < short.len() ==> short[m] == entries[m]);
        }
        assert(short[i] == entries[i]);
        lemma_map_of_value(short, k, i);
    }
}

proof fn lemma_map_of_update(entries: Seq<(Seq<char>, i32)>, i: int, v: i32)
    requires
        unique_keys(entries),
        0 <= i < entries.len(),
    ensures
        map_of(entries.update(i, (entries[i].0, v))) == map_of(entries).insert(entries[i].0, v),
    decreases entries.len(),
{
    let k = entries[i].0;
    let updated = entries.update(i, (k, v));
    if i == entries.len() - 1 {
        assert(updated.drop_last() =~= entries.drop_last());
        assert(updated.last() == (k, v));
        assert(map_of(entries).insert(k, v) =~= map_of(entries.drop_last()).insert(k, v));
    } else {
        let short = entries.drop_last();
        assert(updated.drop_last() =~= short.update(i, (k, v)));
        assert(updated.last() == entries.last());
        assert(unique_keys(short)) by {
            assert(forall|m: int| 0 <= m < short.len() ==> short[m] == entries[m]);
        }
        assert(short[i] == entries[i]);
        lemma_map_of_update(short, i, v);
        assert(entries.last().0 != k);
        assert(map_of(short).insert(k, v).insert(entries.last().0, entries.last().1) =~= map_of(
            short,
        ).insert(entries.last().0, entries.last().1).insert(k, v));
    }
}

proof fn lemma_map_of_dom_len(entries: Seq<(Seq<char>, i32)>)
    requires
        unique_keys(entries),
    ensures
        map_of(entries).dom().finite(),
        map_of(entries).dom().len() == entries.len(),
    decreases entries.len(),
{
    if entries.len() == 0 {
        assert(map_of(entries).dom() =~= Set::<Seq<char>>::empty());
    } else {
        let short = entries.drop_last();
        let last = entries.last();
        assert(unique_keys(short)) by {
            assert(forall|m: int| 0 <= m < short.len() ==> short[m] == entries[m]);
        }
        lemma_map_of_dom_len(short);
        lemma_map_of_contains(short, last.0);
        assert(!map_of(short).contains_key(last.0)) by {
            if exists|i: int| 0 <= i < short.len() && (#[trigger] short[i]).0 == last.0 {
                let i = choose|i: int| 0 <= i < short.len() && (#[trigger] short[i]).0 == last.0;
                assert(entries[i].0 == entries[entries.len() - 1].0);
                assert(false);
            }
        }
        assert(map_of(entries).dom() =~= map_of(short).dom().insert(last.0));
        vstd::set::axiom_set_insert_len(map_of(short).dom(), last.0);
    }
}

/// A string-keyed score map with unique keys and a defined traversal.
pub struct ScoreMap {
    pairs: Vec<(String, i32)>,
}

impl View for ScoreMap {
    type V = Map<Seq<char>, i32>;

    closed spec fn view(&self) -> Map<Seq<char>, i32> {
        map_of(self.entries())
    }
}

impl ScoreMap {
    /// The entries a full traversal visits, keys and values in insertion
    /// order.
    pub closed spec fn entries(&self) -> Seq<(Seq<char>, i32)> {
        Seq::new(self.pairs@.len(), |i: int| (self.pairs@[i].0@, self.pairs@[i].1))
    }

    /// Well-formed: no key occurs twice among the entries.
    pub closed spec fn wf(&self) -> bool {
        unique_keys(self.entries())
    }

    /// An empty map.
    pub fn new() -> (m: ScoreMap)
        ensures
            m.wf(),
            m@ == Map::<Seq<char>, i32>::empty(),
            m.entries() == Seq::<(Seq<char>, i32)>::empty(),
    {
        let m = ScoreMap { pairs: Vec::new() };
        proof {
            assert(m.entries() =~= Seq::<(Seq<char>, i32)>::empty());
        }
        m
    }

    fn find_key(&self, key: &str) -> (r: Option<usize>)
        ensures
            match r {
                Some(i) => i < self.entries().len() && self.entries()[i as int].0 == key@,
                None => forall|j: int|
                    0 <= j < self.entries().len() ==> (#[trigger] self.entries()[j]).0 != key@,
            },
    {
        let mut i: usize = 0;
        while i < self.pairs.len()
            invariant
                i <= self.pairs.len(),
                forall|j: int| 0 <= j < i ==> (#[trigger] self.entries()[j]).0 != key@,
            decreases self.pairs.len() - i,
        {
            if str_eq(self.pairs[i].0.as_str(), key) {
                return Some(i);
            }
            i = i + 1;
        }
        None
    }

    /// Stores `value` under `key`: a fresh key is appended, a present key has
    /// its value overwritten.
    pub fn insert(&mut self, key: String, value: i32)
        requires
            old(self).wf(),
        ensures
            final(self).wf(),
            final(self)@ == old(self)@.insert(key@, value),
    {
        let ghost kview = key@;
        let found = self.find_key(key.as_str());
        match found {
            Some(i) => {
                proof {
                    lemma_map_of_update(self.entries(), i as int, value);
                }
                self.pairs.set(i, (key, value));
                proof {
                    let oe = old(self).entries();
                    let ne = self.entries();
                    assert(ne =~= oe.update(i as int, (oe[i as int].0, value)));
                    assert(forall|m: int| 0 <= m < ne.len() ==> (#[trigger] ne[m]).0 == oe[m].0);
                    assert(oe[i as int].0 == kview);
                    assert(final(self)@ =~= old(self)@.insert(kview, value));
                }
            },
            None => {
                self.pairs.push((key, value));
                proof {
                    let oe = old(self).entries();
                    let ne = self.entries();
                    assert(ne =~= oe.push((kview, value)));
                    assert(ne.drop_last() =~= oe);
                    assert(ne.last() == (kview, value));
                    assert(forall|m: int| 0 <= m < oe.len() ==> ne[m] == oe[m]);
                }
            },
        }
    }

    /// Looks `key` up: the stored value when the key is present, `None` when
    /// it was never inserted. Absence is an answer, not an error.
    pub fn get(&self, key: &str) -> (r: Option<i32>)
        requires
            self.wf(),
        ensures
            match r {
                Some(v) => self@.contains_key(key@) && self@[key@] == v,
                None => !self@.contains_key(key@),
            },
    {
        let found = self.find_key(key);
        match found {
            Some(i) => {
                proof {
                    lemma_map_of_value(self.entries(), key@, i as int);
                }
                Some(self.pairs[i].1)
            },
            None => {
                proof {
                    lemma_map_of_contains(self.entries(), key@);
                }
                None
            },
        }
    }

    /// How many entries a full traversal visits.
    pub fn len(&self) -> (n: usize)
        ensures
            n == self.entries().len(),
    {
        self.pairs.len()
    }

    /// The key of the traversal entry at position `i`.
    pub fn key_at(&self, i: usize) -> (k: &String)
        requires
            i < self.entries().len(),
        ensures
            k@ == self.entries()[i as int].0,
    {
        &self.pairs[i].0
    }

    /// The value of the traversal entry at position `i`.
    pub fn value_at(&self, i: usize) -> (v: i32)
        requires
            i < self.entries().len(),
        ensures
            v == self.entries()[i as int].1,
    {
        self.pairs[i].1
    }

    /// The traversal and the map agree: every traversed entry is present in
    /// the map with its stored value, every key of the map is visited by the
    /// traversal, and the traversal is exactly as long as the map — each
    /// entry is visited exactly once.
    pub proof fn lemma_entries_in_map(&self)
        requires
            self.wf(),
        ensures
            self@.dom().finite(),
            self@.dom().len() == self.entries().len(),
            forall|i: int|
                #![trigger self.entries()[i]]
                0 <= i < self.entries().len() ==> self@.contains_key(self.entries()[i].0)
                    && self@[self.entries()[i].0] == self.entries()[i].1,
            forall|k: Seq<char>|
                self@.contains_key(k) ==> exists|i: int|
                    0 <= i < self.entries().len() && (#[trigger] self.entries()[i]).0 == k,
    {
        lemma_map_of_dom_len(self.entries());
        assert forall|i: int|
            #![trigger self.entries()[i]]
            0 <= i < self.entries().len() implies self@.contains_key(self.entries()[i].0)
            && self@[self.entries()[i].0] == self.entries()[i].1 by {
            lemma_map_of_value(self.entries(), self.entries()[i].0, i);
        }
        assert forall|k: Seq<char>| self@.contains_key(k) implies exists|i: int|
            0 <= i < self.entries().len() && (#[trigger] self.entries()[i]).0 == k by {
            lemma_map_of_contains(self.entries(), k);
        }
    }
}

} // verus!
