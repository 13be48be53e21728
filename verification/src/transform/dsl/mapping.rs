//! A lookup table from text to text.

use vstd::prelude::*;
use crate::assoc::{
    lookup, index_of_key, with_entry, distinct_keys, lemma_index_of_key, lemma_with_entry,
    lemma_lookup_at,
};
use crate::text::{str_eq, str_to_lowercase};

verus! {

/// A lookup table. Every key stands once; a second insertion under a key
/// replaces what the first one put there.
#[derive(Debug, PartialEq)]
pub struct Mapping {
    entries: Vec<(String, String)>,
}

/// The content of a lookup table: its entries in insertion order.
pub type Table = Seq<(Seq<char>, Seq<char>)>;

/// The value of the first entry at or after `i` whose key, in lowercase, is `folded`.
pub open spec fn lookup_folded_from(t: Table, folded: Seq<char>, i: int) -> Option<Seq<char>>
    decreases t.len() - i,
{
    if i < 0 || i >= t.len() {
        None
    } else if str_to_lowercase(t[i].0) == folded {
        Some(t[i].1)
    } else {
        lookup_folded_from(t, folded, i + 1)
    }
}

/// The value of the first entry whose key, in lowercase, is `folded`.
pub open spec fn lookup_folded(t: Table, folded: Seq<char>) -> Option<Seq<char>> {
    lookup_folded_from(t, folded, 0)
}

impl View for Mapping {
    type V = Table;

    closed spec fn view(&self) -> Table {
        Seq::new(self.entries@.len(), |i: int| (self.entries@[i].0@, self.entries@[i].1@))
    }
}

impl Mapping {
    /// The keys are distinct.
    pub open spec fn wf(&self) -> bool {
        distinct_keys(self@)
    }

    /// A table without entries.
    pub fn new() -> (r: Mapping)
        ensures
            r@ == Seq::<(Seq<char>, Seq<char>)>::empty(),
            r.wf(),
    {
        let r = Mapping { entries: Vec::new() };
        assert(r@ =~= Seq::<(Seq<char>, Seq<char>)>::empty());
        r
    }

    /// The number of entries.
    pub fn len(&self) -> (r: usize)
        ensures
            r == self@.len(),
    {
        self.entries.len()
    }

    /// Whether the table has no entries.
    pub fn is_empty(&self) -> (r: bool)
        ensures
            r == (self@.len() == 0),
    {
        self.entries.len() == 0
    }

    /// The key of the entry at `i`.
    pub fn key_at(&self, i: usize) -> (r: &String)
        requires
            i < self@.len(),
        ensures
            r@ == self@[i as int].0,
    {
        &self.entries[i].0
    }

    /// The value of the entry at `i`.
    pub fn value_at(&self, i: usize) -> (r: &String)
        requires
            i < self@.len(),
        ensures
            r@ == self@[i as int].1,
    {
        &self.entries[i].1
    }

    /// Position of the entry under `key`, or the number of entries.
    pub fn position(&self, key: &str) -> (r: usize)
        ensures
            r == index_of_key(self@, key@),
            r <= self@.len(),
            r < self@.len() ==> lookup(self@, key@) == Some(self@[r as int].1),
            r == self@.len() ==> lookup(self@, key@).is_none(),
    {
        let ghost t = self@;
        proof {
            lemma_index_of_key(t, key@);
        }
        let mut i: usize = 0;
        while i < self.entries.len()
            invariant
                i <= self.entries.len(),
                self@ == t,
                t.len() == self.entries.len(),
                forall|j: int| 0 <= j < i ==> (#[trigger] t[j]).0 != key@,
            decreases self.entries.len() - i,
        {
            assert(t[i as int].0 == self.entries@[i as int].0@);
            if str_eq(self.entries[i].0.as_str(), key) {
                proof {
                    lemma_lookup_at(t, key@, i as int);
                }
                return i;
            }
            i += 1;
        }
        proof {
            let k = index_of_key(t, key@);
            if k < t.len() {
                assert(t[k].0 == key@);
            }
        }
        i
    }

    /// Puts `value` under `key`, over an entry that stood there or at the end.
    /// Returns what stood under the key before.
    pub fn insert(&mut self, key: String, value: String) -> (r: Option<String>)
        ensures
            final(self)@ == with_entry(old(self)@, key@, value@),
            old(self).wf() ==> final(self).wf(),
            match r {
                Some(previous) => lookup(old(self)@, key@) == Some(previous@),
                None => lookup(old(self)@, key@).is_none(),
            },
    {
        let ghost before = self@;
        proof {
            lemma_with_entry(before, key@, value@);
        }
        let i = self.position(key.as_str());
        if i < self.entries.len() {
            let mut pair = (key, value);
            assert(before[i as int].1 == self.entries@[i as int].1@);
            std::mem::swap(&mut self.entries[i], &mut pair);
            assert(self@ =~= before.update(i as int, (key@, value@)));
            Some(pair.1)
        } else {
            self.entries.push((key, value));
            assert(self@ =~= before.push((key@, value@)));
            None
        }
    }

    /// The value under `key`.
    pub fn get(&self, key: &str) -> (r: Option<&String>)
        ensures
            match r {
                Some(v) => lookup(self@, key@) == Some(v@),
                None => lookup(self@, key@).is_none(),
            },
    {
        let i = self.position(key);
        if i < self.entries.len() {
            assert(self@[i as int].1 == self.entries@[i as int].1@);
            Some(&self.entries[i].1)
        } else {
            None
        }
    }

    /// The value of the first entry whose key, in lowercase, is `folded`.
    pub fn get_folded(&self, folded: &str) -> (r: Option<&String>)
        ensures
            match r {
                Some(v) => lookup_folded(self@, folded@) == Some(v@),
                None => lookup_folded(self@, folded@).is_none(),
            },
    {
        let mut i: usize = 0;
        while i < self.entries.len()
            invariant
                i <= self.entries.len(),
                lookup_folded(self@, folded@) == lookup_folded_from(self@, folded@, i as int),
            decreases self.entries.len() - i,
        {
            assert(self@[i as int] == (self.entries@[i as int].0@, self.entries@[i as int].1@));
            let low = self.entries[i].0.as_str().to_lowercase();
            if str_eq(low.as_str(), folded) {
                return Some(&self.entries[i].1);
            }
            i += 1;
        }
        None
    }
}

impl Clone for Mapping {
    fn clone(&self) -> (r: Self)
        ensures
            r@ == self@,
    {
        let mut out: Vec<(String, String)> = Vec::new();
        let mut i: usize = 0;
        while i < self.entries.len()
            invariant
                i <= self.entries.len(),
                out@.len() == i,
                forall|j: int|
                    0 <= j < i ==> out@[j].0@ == self.entries@[j].0@ && out@[j].1@
                        == self.entries@[j].1@,
            decreases self.entries.len() - i,
        {
            out.push((self.entries[i].0.clone(), self.entries[i].1.clone()));
            i += 1;
        }
        let r = Mapping { entries: out };
        assert(r@ =~= self@);
        r
    }
}

} // verus!
