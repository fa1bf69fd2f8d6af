//! A small insertion-ordered map from text to text.
//!
//! Fact records carry a handful of key/value pairs each (port maps, tag
//! bindings, rule configuration).  Keeping them in insertion order makes every
//! walk over them deterministic.
use vstd::prelude::*;
use crate::text::{str_eq};

verus! {

/// One key with its value.
#[derive(Debug, Clone, Default, PartialEq, Eq)]
pub struct MapEntry {
    pub key: String,
    pub value: String,
}

/// Key/value pairs in insertion order; no key occurs twice.
#[derive(Debug, Clone, Default, PartialEq, Eq)]
pub struct StringMap {
    pub entries: Vec<MapEntry>,
}

/// The index of the first entry at or after `i` whose key is `key`, or the
/// number of entries if there is none.
pub open spec fn index_of_key(entries: Seq<MapEntry>, key: Seq<char>, i: int) -> int
    decreases entries.len() - i,
{
    if i < 0 || i >= entries.len() {
        entries.len() as int
    } else if entries[i].key@ == key {
        i
    } else {
        index_of_key(entries, key, i + 1)
    }
}

pub proof fn lemma_index_of_key(entries: Seq<MapEntry>, key: Seq<char>, i: int)
    requires
        0 <= i,
    ensures
        i <= index_of_key(entries, key, i) || entries.len() <= i,
        index_of_key(entries, key, i) <= entries.len(),
        index_of_key(entries, key, i) < entries.len() ==> entries[index_of_key(
            entries,
            key,
            i,
        )].key@ == key,
        forall|j: int| i <= j < index_of_key(entries, key, i) ==> entries[j].key@ != key,
    decreases entries.len() - i,
{
    if i < entries.len() && entries[i].key@ != key {
        lemma_index_of_key(entries, key, i + 1);
    }
}

/// The first position of a key is the one position that holds it with none before.
pub proof fn lemma_index_of_key_is(entries: Seq<MapEntry>, key: Seq<char>, r: int)
    requires
        0 <= r <= entries.len(),
        forall|j: int| 0 <= j < r ==> (#[trigger] entries[j]).key@ != key,
        r < entries.len() ==> entries[r].key@ == key,
    ensures
        index_of_key(entries, key, 0) == r,
{
    lemma_index_of_key(entries, key, 0);
    let x = index_of_key(entries, key, 0);
    if x < r {
        assert(entries[x].key@ == key);
    }
    if r < x {
        assert(entries[r].key@ == key);
    }
}

/// The pairs of a list of entries, each by its texts.
pub open spec fn entry_views(entries: Seq<MapEntry>) -> Seq<(Seq<char>, Seq<char>)> {
    Seq::new(entries.len(), |i: int| (entries[i].key@, entries[i].value@))
}

impl View for StringMap {
    type V = Seq<(Seq<char>, Seq<char>)>;

    open spec fn view(&self) -> Seq<(Seq<char>, Seq<char>)> {
        entry_views(self.entries@)
    }
}

impl StringMap {
    /// No key occurs twice.
    pub open spec fn wf(&self) -> bool {
        forall|i: int, j: int|
            0 <= i < j < self.entries@.len() ==> self.entries@[i].key@ != self.entries@[j].key@
    }

    /// Whether some entry has this key.
    pub open spec fn has_key(&self, key: Seq<char>) -> bool {
        index_of_key(self.entries@, key, 0) < self.entries@.len()
    }

    /// The value stored under `key`, if any.
    pub open spec fn lookup(&self, key: Seq<char>) -> Option<Seq<char>> {
        if self.has_key(key) {
            Some(self.entries@[index_of_key(self.entries@, key, 0)].value@)
        } else {
            None
        }
    }

    pub fn new() -> (r: StringMap)
        ensures
            r.entries@.len() == 0,
            r.wf(),
    {
        StringMap { entries: Vec::new() }
    }

    /// The position of `key`, or the number of entries if it is absent.
    pub fn position(&self, key: &str) -> (r: usize)
        ensures
            r == index_of_key(self.entries@, key@, 0),
            r <= self.entries@.len(),
    {
        let mut i: usize = 0;
        while i < self.entries.len()
            invariant
                i <= self.entries@.len(),
                index_of_key(self.entries@, key@, 0) == index_of_key(self.entries@, key@, i as int),
            decreases self.entries@.len() - i,
        {
            if str_eq(self.entries[i].key.as_str(), key) {
                return i;
            }
            i += 1;
        }
        i
    }

    pub fn contains_key(&self, key: &str) -> (r: bool)
        ensures
            r == self.has_key(key@),
    {
        self.position(key) < self.entries.len()
    }

    pub fn get(&self, key: &str) -> (r: Option<&String>)
        ensures
            match r {
                Some(v) => self.lookup(key@) == Some(v@),
                None => self.lookup(key@).is_none(),
            },
    {
        let i = self.position(key);
        if i < self.entries.len() {
            Some(&self.entries[i].value)
        } else {
            None
        }
    }

    pub fn len(&self) -> (r: usize)
        ensures
            r == self.entries@.len(),
    {
        self.entries.len()
    }

    pub fn is_empty(&self) -> (r: bool)
        ensures
            r == (self.entries@.len() == 0),
    {
        self.entries.len() == 0
    }

    /// Stores `value` under `key`: an existing entry keeps its place and gets
    /// the new value, a new key is appended.
    pub fn insert(&mut self, key: String, value: String)
        requires
            old(self).wf(),
        ensures
            final(self).wf(),
            final(self).lookup(key@) == Some(value@),
            forall|k: Seq<char>| k != key@ ==> final(self).lookup(k) == old(self).lookup(k),
            old(self).has_key(key@) ==> final(self).entries@.len() == old(self).entries@.len(),
            !old(self).has_key(key@) ==> final(self).entries@ == old(self).entries@.push(
                MapEntry { key, value },
            ),
    {
        let i = self.position(key.as_str());
        let ghost before = self.entries@;
        proof {
            lemma_index_of_key(before, key@, 0);
        }
        if i < self.entries.len() {
            self.entries.set(i, MapEntry { key, value });
        } else {
            self.entries.push(MapEntry { key, value });
        }
        proof {
            let after = self.entries@;
            lemma_index_of_key_is(after, key@, i as int);
            assert forall|k: Seq<char>| k != key@ implies self.lookup(k) == old(self).lookup(k) by {
                lemma_index_of_key(before, k, 0);
                let r = index_of_key(before, k, 0);
                if r < before.len() {
                    assert(r != i);
                    assert(after[r] == before[r]);
                }
                assert forall|j: int| 0 <= j < r implies (#[trigger] after[j]).key@ != k by {
                    if j != i {
                        assert(after[j] == before[j]);
                    }
                }
                if r == before.len() {
                    assert forall|j: int| 0 <= j < after.len() implies (#[trigger] after[j]).key@
                        != k by {
                        if j != i {
                            assert(after[j] == before[j]);
                        }
                    }
                    lemma_index_of_key_is(after, k, after.len() as int);
                } else {
                    lemma_index_of_key_is(after, k, r);
                }
            }
            assert forall|a: int, b: int| 0 <= a < b < after.len() implies after[a].key@
                != after[b].key@ by {
                if a != i && b != i {
                    assert(after[a] == before[a]);
                    assert(after[b] == before[b]);
                } else if a == i {
                    if b < before.len() {
                        assert(after[b] == before[b]);
                    }
                } else {
                    assert(after[a] == before[a]);
                }
            }
        }
    }
}

} // verus!
