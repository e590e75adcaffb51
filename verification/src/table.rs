//! A table from handles to values. The values stand in a row, and an index of
//! the handles tells the place of each.

use vstd::prelude::*;
use crate::ids::Key;

verus! {

/// A table from handles to values.
pub struct Table<K: Key, V> {
    index: K::Index,
    keys: Vec<K>,
    values: Vec<V>,
}

impl<K: Key, V> View for Table<K, V> {
    type V = Map<K, V>;

    closed spec fn view(&self) -> Map<K, V> {
        Map::new(
            |key: K| K::places(&self.index).contains_key(key),
            |key: K| self.values@[K::places(&self.index)[key] as int],
        )
    }
}

impl<K: Key, V> Table<K, V> {
    /// Whether the table is well formed: every handle has its value, and the
    /// index holds for each handle the place where it stands.
    pub closed spec fn wf(&self) -> bool {
        &&& self.keys@.len() == self.values@.len()
        &&& forall|i: int|
            0 <= i < self.keys@.len() ==> K::places(&self.index).contains_key(
                #[trigger] self.keys@[i],
            ) && K::places(&self.index)[self.keys@[i]] == i
        &&& forall|key: K| #[trigger]
            K::places(&self.index).contains_key(key) ==> K::places(&self.index)[key]
                < self.keys@.len() && self.keys@[K::places(&self.index)[key] as int] == key
    }

    /// The number of entries.
    pub closed spec fn spec_len(&self) -> nat {
        self.keys@.len()
    }

    /// The number of entries is the number of keys of the view.
    pub proof fn lemma_len(&self)
        requires
            self.wf(),
        ensures
            self@.dom().finite(),
            self@.dom().len() == self.spec_len(),
    {
        assert forall|i: int, j: int|
            0 <= i < self.keys@.len() && 0 <= j < self.keys@.len() && i != j implies self.keys@[i]
            != self.keys@[j] by {
            assert(K::places(&self.index)[self.keys@[i]] == i);
            assert(K::places(&self.index)[self.keys@[j]] == j);
        }
        self.keys@.unique_seq_to_set();
        assert forall|key: K| self@.dom().contains(key) == self.keys@.to_set().contains(key) by {
            if self@.dom().contains(key) {
                assert(self.keys@[K::places(&self.index)[key] as int] == key);
            }
            if self.keys@.contains(key) {
                let i = choose|i: int| 0 <= i < self.keys@.len() && self.keys@[i] == key;
                assert(K::places(&self.index).contains_key(self.keys@[i]));
            }
        }
        assert(self@.dom() =~= self.keys@.to_set());
    }

    /// An empty table.
    pub fn new() -> (table: Table<K, V>)
        ensures
            table.wf(),
            table@ == Map::<K, V>::empty(),
            table.spec_len() == 0,
    {
        let table = Table { index: K::new_index(), keys: Vec::new(), values: Vec::new() };
        assert(table@ =~= Map::<K, V>::empty());
        table
    }

    /// The number of entries.
    pub fn len(&self) -> (len: usize)
        requires
            self.wf(),
        ensures
            len == self.spec_len(),
            len == self@.dom().len(),
    {
        proof {
            self.lemma_len();
        }
        self.keys.len()
    }

    /// Whether `key` has an entry.
    pub fn contains_key(&self, key: &K) -> (present: bool)
        requires
            self.wf(),
        ensures
            present == self@.contains_key(*key),
    {
        K::find(&self.index, key).is_some()
    }

    /// The value of `key`, if it has one.
    pub fn get(&self, key: &K) -> (value: Option<&V>)
        requires
            self.wf(),
        ensures
            match value {
                Some(v) => self@.contains_key(*key) && *v == self@[*key],
                None => !self@.contains_key(*key),
            },
    {
        match K::find(&self.index, key) {
            Some(i) => Some(&self.values[i]),
            None => None,
        }
    }

    /// Gives `key` the value `value`, and returns the value that it had, if
    /// it had one.
    pub fn insert(&mut self, key: K, value: V) -> (previous: Option<V>)
        requires
            old(self).wf(),
        ensures
            final(self).wf(),
            final(self)@ == old(self)@.insert(key, value),
            match previous {
                Some(v) => old(self)@.contains_key(key) && v == old(self)@[key],
                None => !old(self)@.contains_key(key),
            },
    {
        let previous = self.remove(&key);
        let ghost emptied = *self;
        let at = self.keys.len();
        K::put(&mut self.index, key.duplicate(), at);
        self.keys.push(key);
        self.values.push(value);
        proof {
            assert(!emptied@.contains_key(key));
            assert(!K::places(&emptied.index).contains_key(key));
            assert forall|i: int| 0 <= i < self.keys@.len() implies K::places(
                &self.index,
            ).contains_key(#[trigger] self.keys@[i]) && K::places(&self.index)[self.keys@[i]]
                == i by {
                if i < at {
                    assert(emptied.keys@[i] == self.keys@[i]);
                    assert(K::places(&emptied.index).contains_key(emptied.keys@[i]));
                }
            }
            assert forall|k: K| #[trigger] K::places(&self.index).contains_key(k) implies K::places(
                &self.index,
            )[k] < self.keys@.len() && self.keys@[K::places(&self.index)[k] as int] == k by {
                if k != key {
                    assert(K::places(&emptied.index).contains_key(k));
                }
            }
            assert forall|k: K| #[trigger] self@.contains_key(k) implies self@[k] == old(
                self,
            )@.insert(key, value)[k] by {
                if k != key {
                    assert(K::places(&emptied.index).contains_key(k));
                    assert(emptied@.contains_key(k));
                    let j = K::places(&emptied.index)[k];
                    assert(K::places(&self.index)[k] == j);
                    assert(self.values@[j as int] == emptied.values@[j as int]);
                    assert(emptied@[k] == emptied.values@[j as int]);
                    assert(emptied@[k] == old(self)@.remove(key)[k]);
                } else {
                    assert(K::places(&self.index)[key] == at);
                    assert(self.values@[at as int] == value);
                }
            }
            assert forall|k: K| self@.contains_key(k) == old(self)@.insert(
                key,
                value,
            ).contains_key(k) by {
                if k != key {
                    assert(emptied@.contains_key(k) == K::places(&emptied.index).contains_key(k));
                }
            }
            assert(self@ =~= old(self)@.insert(key, value));
        }
        previous
    }

    /// Takes the entry of `key` out and returns its value, if it had one.
    pub fn remove(&mut self, key: &K) -> (taken: Option<V>)
        requires
            old(self).wf(),
        ensures
            final(self).wf(),
            final(self)@ == old(self)@.remove(*key),
            match taken {
                Some(v) => old(self)@.contains_key(*key) && v == old(self)@[*key],
                None => !old(self)@.contains_key(*key),
            },
    {
        let ghost before = *self;
        match K::take(&mut self.index, key) {
            Some(i) => {
                assert(before.keys@[i as int] == *key);
                let taken = self.values.swap_remove(i);
                self.keys.swap_remove(i);
                let ghost last = before.keys@.len() - 1;
                if i < self.keys.len() {
                    let moved = self.keys[i].duplicate();
                    assert(moved == before.keys@[last]);
                    assert(K::places(&before.index)[moved] == last);
                    K::put(&mut self.index, moved, i);
                }
                proof {
                    assert forall|j: int| 0 <= j < self.keys@.len() implies K::places(
                        &self.index,
                    ).contains_key(#[trigger] self.keys@[j]) && K::places(
                        &self.index,
                    )[self.keys@[j]] == j by {
                        if j != i {
                            assert(self.keys@[j] == before.keys@[j]);
                            assert(K::places(&before.index)[before.keys@[j]] == j);
                            assert(K::places(&before.index)[before.keys@[last]] == last);
                        }
                    }
                    assert forall|k: K| #[trigger]
                        K::places(&self.index).contains_key(k) implies K::places(&self.index)[k]
                        < self.keys@.len() && self.keys@[K::places(&self.index)[k] as int]
                        == k by {
                        assert(K::places(&before.index).contains_key(k));
                        assert(K::places(&before.index)[before.keys@[last]] == last);
                    }
                    assert forall|k: K| #[trigger] self@.contains_key(k) implies self@[k]
                        == before@.remove(*key)[k] by {
                        assert(K::places(&before.index).contains_key(k));
                        assert(K::places(&before.index)[before.keys@[last]] == last);
                    }
                    assert(self@ =~= before@.remove(*key));
                }
                Some(taken)
            },
            None => {
                assert(self@ =~= before@.remove(*key));
                None
            },
        }
    }
}

} // verus!
