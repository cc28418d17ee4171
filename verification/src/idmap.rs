//! A map from identifiers to values that remembers the order in which its keys
//! first came, with a hash index for the lookups.

use crate::text::{lemma_texts_push, texts};
use vstd::hash_map::StringHashMap;
use vstd::prelude::*;

verus! {

/// The mathematical value of an `IdMap`: the keys in the order of their first
/// insertion, each with its value.
pub struct Table<T> {
    pub keys: Seq<Seq<char>>,
    pub values: Seq<T>,
}

impl<T> Table<T> {
    /// The table without entries.
    pub open spec fn empty() -> Self {
        Table { keys: Seq::empty(), values: Seq::empty() }
    }

    /// One value for each key, and no key twice.
    pub open spec fn well_formed(self) -> bool {
        &&& self.keys.len() == self.values.len()
        &&& self.keys.no_duplicates()
    }

    /// The number of entries.
    pub open spec fn len(self) -> nat {
        self.keys.len()
    }

    /// Whether `key` has an entry.
    pub open spec fn contains(self, key: Seq<char>) -> bool {
        self.keys.contains(key)
    }

    /// The position of `key`'s entry, where it has one.
    pub open spec fn position(self, key: Seq<char>) -> int {
        self.keys.index_of(key)
    }

    /// The value of `key`, if it has one.
    pub open spec fn get(self, key: Seq<char>) -> Option<T> {
        if self.contains(key) {
            Some(self.values[self.position(key)])
        } else {
            None
        }
    }

    /// The table with `value` at `key`: in place of the old value where the key
    /// is present, else as a new last entry.
    pub open spec fn put(self, key: Seq<char>, value: T) -> Self {
        if self.contains(key) {
            Table { keys: self.keys, values: self.values.update(self.position(key), value) }
        } else {
            Table { keys: self.keys.push(key), values: self.values.push(value) }
        }
    }

    /// In a well-formed table the position of a key is the one index that holds it.
    pub proof fn lemma_position(self, i: int)
        requires
            self.well_formed(),
            0 <= i < self.keys.len(),
        ensures
            self.contains(self.keys[i]),
            self.position(self.keys[i]) == i,
            self.get(self.keys[i]) == Some(self.values[i]),
    {
        let k = self.keys[i];
        assert(self.keys.contains(k));
        let j = self.keys.index_of(k);
        assert(0 <= j < self.keys.len() && self.keys[j] == k);
    }

    /// The position of a present key lies within the table and holds the key.
    pub proof fn lemma_position_of(self, key: Seq<char>)
        requires
            self.contains(key),
        ensures
            0 <= self.position(key) < self.keys.len(),
            self.keys[self.position(key)] == key,
    {
        let j = self.keys.index_of(key);
        assert(0 <= j < self.keys.len() && self.keys[j] == key);
    }

    /// `put` keeps a table well-formed, sets the key, and leaves every other key alone.
    pub proof fn lemma_put(self, key: Seq<char>, value: T)
        requires
            self.well_formed(),
        ensures
            self.put(key, value).well_formed(),
            self.put(key, value).get(key) == Some(value),
            self.put(key, value).len() == if self.contains(key) {
                self.len()
            } else {
                self.len() + 1
            },
            forall|other: Seq<char>|
                other != key ==> #[trigger] self.put(key, value).get(other) == self.get(other),
            forall|other: Seq<char>| #[trigger]
                self.put(key, value).contains(other) <==> other == key || self.contains(other),
    {
        let after = self.put(key, value);
        if self.contains(key) {
            self.lemma_position_of(key);
            let p = self.position(key);
            assert(after.keys == self.keys);
            assert forall|other: Seq<char>| other != key implies #[trigger] after.get(other)
                == self.get(other) by {
                if self.contains(other) {
                    self.lemma_position_of(other);
                }
            }
        } else {
            let n = self.keys.len() as int;
            assert(after.keys[n] == key);
            assert forall|i: int, j: int|
                0 <= i < after.keys.len() && 0 <= j < after.keys.len() && i != j implies after.keys[i]
                != after.keys[j] by {
                if i < n {
                    assert(self.keys[i] == after.keys[i]);
                    assert(self.keys.contains(after.keys[i]));
                }
                if j < n {
                    assert(self.keys[j] == after.keys[j]);
                    assert(self.keys.contains(after.keys[j]));
                }
            }
            after.lemma_position(n);
            assert forall|other: Seq<char>| #[trigger]
                after.contains(other) <==> other == key || self.contains(other) by {
                if after.contains(other) {
                    after.lemma_position_of(other);
                    let p = after.position(other);
                    if p < n {
                        assert(self.keys[p] == other);
                    }
                }
                if self.contains(other) {
                    self.lemma_position_of(other);
                    assert(after.keys[self.position(other)] == other);
                }
            }
            assert forall|other: Seq<char>| other != key implies #[trigger] after.get(other)
                == self.get(other) by {
                if self.contains(other) {
                    self.lemma_position_of(other);
                    let p = self.position(other);
                    assert(after.keys[p] == other);
                    after.lemma_position(p);
                }
            }
        }
    }
}

/// A map keyed by identifier strings. Its entries stand in the order in which
/// their keys were first inserted.
pub struct IdMap<V> {
    ids: Vec<String>,
    items: Vec<V>,
    index: StringHashMap<usize>,
}

impl<V: DeepView> View for IdMap<V> {
    type V = Table<V::V>;

    closed spec fn view(&self) -> Table<V::V> {
        Table {
            keys: texts(self.ids@),
            values: Seq::new(self.items@.len(), |i: int| self.items@[i].deep_view()),
        }
    }
}

impl<V> IdMap<V> {
    /// The index knows each key's position, and nothing else.
    #[verifier::type_invariant]
    pub closed spec fn wf(&self) -> bool {
        &&& self.ids@.len() == self.items@.len()
        &&& forall|i: int|
            0 <= i < self.ids@.len() ==> self.index@.contains_key(#[trigger] self.ids@[i]@)
                && self.index@[self.ids@[i]@] == i
        &&& forall|k: Seq<char>| #[trigger]
            self.index@.contains_key(k) ==> 0 <= self.index@[k] < self.ids@.len()
                && self.ids@[self.index@[k] as int]@ == k
    }
}

impl<V: DeepView> IdMap<V> {
    /// The value of a valid map is a well-formed table, whose positions are those
    /// of the index.
    pub proof fn lemma_view(&self)
        requires
            self.wf(),
        ensures
            self@.well_formed(),
    {
        self.lemma_index();
    }

    proof fn lemma_index(&self)
        requires
            self.wf(),
        ensures
            self@.well_formed(),
            self@.keys == texts(self.ids@),
            self@.values.len() == self.items@.len(),
            forall|k: Seq<char>| #[trigger] self@.contains(k) <==> self.index@.contains_key(k),
            forall|k: Seq<char>| #[trigger]
                self@.contains(k) ==> self@.position(k) == self.index@[k] as int,
    {
        let t = self@;
        assert forall|i: int, j: int|
            0 <= i < t.keys.len() && 0 <= j < t.keys.len() && i != j implies t.keys[i]
            != t.keys[j] by {
            assert(self.index@[self.ids@[i]@] == i);
            assert(self.index@[self.ids@[j]@] == j);
        }
        assert forall|k: Seq<char>| #[trigger] t.contains(k) <==> self.index@.contains_key(k) by {
            if t.contains(k) {
                t.lemma_position_of(k);
                assert(self.index@.contains_key(self.ids@[t.position(k)]@));
            }
            if self.index@.contains_key(k) {
                assert(t.keys[self.index@[k] as int] == k);
            }
        }
        assert forall|k: Seq<char>| #[trigger] t.contains(k) implies t.position(k)
            == self.index@[k] as int by {
            t.lemma_position_of(k);
            assert(self.index@[self.ids@[t.position(k)]@] == t.position(k));
        }
    }

    /// An empty map.
    pub fn new() -> (r: Self)
        ensures
            r@ == Table::<V::V>::empty(),
    {
        let r = IdMap { ids: Vec::new(), items: Vec::new(), index: StringHashMap::new() };
        assert(r@.keys =~= Seq::empty());
        assert(r@.values =~= Seq::empty());
        r
    }

    /// The number of entries.
    pub fn len(&self) -> (n: usize)
        ensures
            n == self@.len(),
            self@.well_formed(),
    {
        proof {
            use_type_invariant(self);
            self.lemma_index();
        }
        self.ids.len()
    }

    /// Whether the map holds no entry.
    pub fn is_empty(&self) -> (b: bool)
        ensures
            b == (self@.len() == 0),
    {
        proof {
            use_type_invariant(self);
            self.lemma_index();
        }
        self.ids.len() == 0
    }

    /// Whether `key` has an entry.
    pub fn contains_key(&self, key: &str) -> (b: bool)
        ensures
            b == self@.contains(key@),
    {
        proof {
            use_type_invariant(self);
            self.lemma_index();
        }
        self.index.contains_key(key)
    }

    /// The value of `key`, if it has one.
    pub fn get(&self, key: &str) -> (r: Option<&V>)
        ensures
            match r {
                Some(v) => self@.get(key@) == Some(v.deep_view()),
                None => self@.get(key@) is None,
            },
    {
        proof {
            use_type_invariant(self);
            self.lemma_index();
        }
        match self.index.get(key) {
            Some(i) => {
                assert(self@.contains(key@));
                Some(&self.items[*i])
            },
            None => None,
        }
    }

    /// The entry at position `i`, if there are that many.
    pub fn entry(&self, i: usize) -> (r: Option<(&String, &V)>)
        ensures
            self@.well_formed(),
            match r {
                Some((k, v)) => i < self@.len() && k@ == self@.keys[i as int] && v.deep_view()
                    == self@.values[i as int],
                None => i >= self@.len(),
            },
    {
        proof {
            use_type_invariant(self);
            self.lemma_index();
        }
        if i < self.ids.len() {
            Some((&self.ids[i], &self.items[i]))
        } else {
            None
        }
    }

    /// Sets the value of `key`: an entry that is there keeps its place.
    pub fn insert(&mut self, key: String, value: V)
        ensures
            final(self)@ == old(self)@.put(key@, value.deep_view()),
            old(self)@.well_formed(),
            final(self)@.well_formed(),
    {
        let mut taken = IdMap::new();
        std::mem::swap(self, &mut taken);
        proof {
            use_type_invariant(&taken);
            taken.lemma_index();
            taken@.lemma_put(key@, value.deep_view());
        }
        let ghost before = taken;
        let IdMap { mut ids, mut items, mut index } = taken;
        match index.get(key.as_str()) {
            Some(i) => {
                let i = *i;
                assert(before@.contains(key@));
                items.set(i, value);
            },
            None => {
                let n = ids.len();
                proof {
                    lemma_texts_push(ids@, key);
                }
                index.insert(key.clone(), n);
                ids.push(key);
                items.push(value);
            },
        }
        let after = IdMap { ids, items, index };
        assert(after@.keys =~= before@.put(key@, value.deep_view()).keys);
        assert(after@.values =~= before@.put(key@, value.deep_view()).values);
        *self = after;
    }
}

impl IdMap<Vec<String>> {
    /// Adds `id` to the end of the list at `key`, which starts empty where the key
    /// is new.
    pub fn append_to(&mut self, key: &str, id: String)
        ensures
            final(self)@ == old(self)@.put(
                key@,
                match old(self)@.get(key@) {
                    Some(list) => list.push(id@),
                    None => seq![id@],
                },
            ),
            old(self)@.well_formed(),
            final(self)@.well_formed(),
    {
        let mut taken = IdMap::new();
        std::mem::swap(self, &mut taken);
        let ghost before = taken;
        let ghost list = match before@.get(key@) {
            Some(list) => list.push(id@),
            None => seq![id@],
        };
        proof {
            use_type_invariant(&taken);
            taken.lemma_index();
            taken@.lemma_put(key@, list);
        }
        let IdMap { mut ids, mut items, mut index } = taken;
        match index.get(key) {
            Some(i) => {
                let i = *i;
                assert(before@.contains(key@));
                assert(before@.values[i as int] == items@[i as int].deep_view());
                items[i].push(id);
                assert(items@[i as int].deep_view() =~= list);
            },
            None => {
                let n = ids.len();
                let owned = key.to_owned();
                let mut fresh: Vec<String> = Vec::new();
                fresh.push(id);
                assert(fresh.deep_view() =~= list);
                proof {
                    lemma_texts_push(ids@, owned);
                }
                index.insert(owned.clone(), n);
                ids.push(owned);
                items.push(fresh);
            },
        }
        let after = IdMap { ids, items, index };
        assert(after@.keys =~= before@.put(key@, list).keys);
        assert(after@.values =~= before@.put(key@, list).values);
        *self = after;
    }
}

} // verus!
