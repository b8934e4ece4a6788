//! A small table keyed by strings, in which no key occurs twice.

use vstd::prelude::*;
use crate::text::{is_position, same};

verus! {

/// Values stored under string keys. Entries keep the order in which their
/// keys first came in.
#[derive(Debug)]
pub struct Table<T> {
    entries: Vec<(String, T)>,
}

impl<T> View for Table<T> {
    type V = Map<Seq<char>, T>;

    /// The table as a map from keys to values.
    closed spec fn view(&self) -> Map<Seq<char>, T> {
        Map::new(
            |key: Seq<char>| self.keys().contains(key),
            |key: Seq<char>| self.entries@[self.keys().index_of(key)].1,
        )
    }
}

impl<T> Table<T> {
    /// The keys, in the order of the entries.
    pub closed spec fn keys(&self) -> Seq<Seq<char>> {
        Seq::new(self.entries@.len(), |i: int| self.entries@[i].0@)
    }

    /// No key occurs twice.
    pub closed spec fn wf(&self) -> bool {
        self.keys().no_duplicates()
    }

    /// Entry `i` is what the map holds under its key.
    proof fn lemma_entry(&self, i: int)
        requires
            self.wf(),
            0 <= i < self.entries@.len(),
        ensures
            self@.contains_key(self.entries@[i].0@),
            self@[self.entries@[i].0@] == self.entries@[i].1,
    {
        let key = self.keys()[i];
        assert(self.keys().contains(key));
        let j = self.keys().index_of(key);
        assert(self.keys()[j] == key);
    }

    /// The keys are the domain of the map, each counted once.
    pub proof fn lemma_keys(&self)
        requires
            self.wf(),
        ensures
            self@.dom() =~= self.keys().to_set(),
            self@.dom().finite(),
            self@.dom().len() == self.keys().len(),
    {
        self.keys().unique_seq_to_set();
        vstd::seq_lib::seq_to_set_is_finite(self.keys());
    }

    /// A table without entries.
    pub fn new() -> (table: Self)
        ensures
            table.wf(),
            table@ == Map::<Seq<char>, T>::empty(),
            table.keys() == Seq::<Seq<char>>::empty(),
    {
        let table = Table { entries: Vec::new() };
        assert(table.keys() =~= Seq::<Seq<char>>::empty());
        assert(table@ =~= Map::<Seq<char>, T>::empty());
        table
    }

    fn find(&self, key: &str) -> (p: usize)
        ensures
            is_position(self.keys(), key@, p as int),
            p <= self.entries@.len(),
    {
        let n = self.entries.len();
        let mut p: usize = 0;
        while p < n
            invariant
                n == self.entries@.len(),
                p <= n,
                forall|k: int| 0 <= k < p ==> self.keys()[k] != key@,
            decreases n - p,
        {
            if same(self.entries[p].0.as_str(), key) {
                return p;
            }
            p = p + 1;
        }
        p
    }

    /// How many keys the table holds.
    pub fn len(&self) -> (count: usize)
        requires
            self.wf(),
        ensures
            count == self@.dom().len(),
            count == self.keys().len(),
    {
        proof {
            self.lemma_keys();
        }
        self.entries.len()
    }

    /// Whether the table holds nothing.
    pub fn is_empty(&self) -> (empty: bool)
        requires
            self.wf(),
        ensures
            empty == (self@ == Map::<Seq<char>, T>::empty()),
            empty == (self.keys().len() == 0),
    {
        proof {
            if self.entries@.len() == 0 {
                assert(self.keys() =~= Seq::<Seq<char>>::empty());
                assert(self@ =~= Map::<Seq<char>, T>::empty());
            } else {
                self.lemma_entry(0);
            }
        }
        self.entries.len() == 0
    }

    /// Whether something is stored under `key`.
    pub fn contains_key(&self, key: &str) -> (present: bool)
        requires
            self.wf(),
        ensures
            present == self@.contains_key(key@),
    {
        let p = self.find(key);
        proof {
            if p < self.entries@.len() {
                self.lemma_entry(p as int);
            }
        }
        p < self.entries.len()
    }

    /// What is stored under `key`.
    pub fn get(&self, key: &str) -> (found: Option<&T>)
        requires
            self.wf(),
        ensures
            match found {
                Some(value) => self@.contains_key(key@) && *value == self@[key@],
                None => !self@.contains_key(key@),
            },
    {
        let p = self.find(key);
        if p < self.entries.len() {
            proof {
                self.lemma_entry(p as int);
            }
            Some(&self.entries[p].1)
        } else {
            None
        }
    }

    /// Stores `value` under `key`, in place of what was stored there.
    pub fn insert(&mut self, key: String, value: T)
        requires
            old(self).wf(),
        ensures
            final(self).wf(),
            final(self)@ == old(self)@.insert(key@, value),
            final(self).keys() == if old(self)@.contains_key(key@) {
                old(self).keys()
            } else {
                old(self).keys().push(key@)
            },
    {
        let p = self.find(key.as_str());
        let ghost before = *self;
        if p < self.entries.len() {
            proof {
                before.lemma_entry(p as int);
            }
            self.entries.set(p, (key, value));
            proof {
                assert(self.keys() =~= before.keys());
                assert forall|k: Seq<char>| #[trigger] self@.contains_key(k) == before@.insert(key@, value).contains_key(k) by {}
                assert forall|k: Seq<char>| self@.contains_key(k) implies #[trigger] self@[k] == before@.insert(
                    key@,
                    value,
                )[k] by {
                    let j = self.keys().index_of(k);
                    assert(self.keys()[j] == k);
                    self.lemma_entry(j);
                    if j != p {
                        before.lemma_entry(j);
                    }
                }
                assert(self@ =~= before@.insert(key@, value));
            }
        } else {
            self.entries.push((key, value));
            proof {
                assert(!before.keys().contains(key@));
                assert(self.keys() =~= before.keys().push(key@));
                assert(self.keys().no_duplicates()) by {
                    assert forall|a: int, b: int|
                        0 <= a < self.keys().len() && 0 <= b < self.keys().len() && a != b implies self.keys()[a]
                        != self.keys()[b] by {
                        if a < before.keys().len() {
                            assert(before.keys().contains(self.keys()[a]));
                        }
                        if b < before.keys().len() {
                            assert(before.keys().contains(self.keys()[b]));
                        }
                    }
                }
                assert forall|k: Seq<char>| #[trigger] self@.contains_key(k) == before@.insert(key@, value).contains_key(k) by {
                    if before.keys().contains(k) {
                        let j = before.keys().index_of(k);
                        assert(before.keys()[j] == k);
                        assert(self.keys()[j] == k);
                    }
                    if k == key@ {
                        assert(self.keys()[before.keys().len() as int] == k);
                    }
                    if self.keys().contains(k) {
                        let j = self.keys().index_of(k);
                        assert(self.keys()[j] == k);
                        if j < before.keys().len() {
                            assert(before.keys()[j] == k);
                        }
                    }
                }
                assert forall|k: Seq<char>| self@.contains_key(k) implies #[trigger] self@[k] == before@.insert(
                    key@,
                    value,
                )[k] by {
                    let j = self.keys().index_of(k);
                    assert(self.keys()[j] == k);
                    self.lemma_entry(j);
                    if j < before.keys().len() {
                        assert(before.keys()[j] == k);
                        before.lemma_entry(j);
                    }
                }
                assert(self@ =~= before@.insert(key@, value));
            }
        }
    }

    /// The entries, one for each key, in the order in which the keys came in.
    pub fn entries(&self) -> (list: &Vec<(String, T)>)
        requires
            self.wf(),
        ensures
            list@.len() == self@.dom().len(),
            list@.len() == self.keys().len(),
            forall|i: int| 0 <= i < list@.len() ==> (#[trigger] list@[i]).0@ == self.keys()[i],
            forall|i: int|
                0 <= i < list@.len() ==> self@.contains_key((#[trigger] list@[i]).0@)
                    && self@[list@[i].0@] == list@[i].1,
    {
        proof {
            self.lemma_keys();
            assert forall|i: int| 0 <= i < self.entries@.len() implies self@.contains_key(
                (#[trigger] self.entries@[i]).0@,
            ) && self@[self.entries@[i].0@] == self.entries@[i].1 by {
                self.lemma_entry(i);
            }
        }
        &self.entries
    }

    /// Drops every entry.
    pub fn clear(&mut self)
        ensures
            final(self).wf(),
            final(self)@ == Map::<Seq<char>, T>::empty(),
            final(self).keys() == Seq::<Seq<char>>::empty(),
    {
        self.entries.clear();
        assert(self.keys() =~= Seq::<Seq<char>>::empty());
        assert(self@ =~= Map::<Seq<char>, T>::empty());
    }
}

} // verus!
