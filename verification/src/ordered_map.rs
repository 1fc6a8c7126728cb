//! A map from text keys to values that keeps its keys in the order of their
//! first insertion.

use vstd::prelude::*;

verus! {

/// A small map keyed by text. No key occurs twice, and iteration by index
/// visits the keys in the order in which they were first inserted.
#[derive(Debug)]
pub struct OrderedMap<V> {
    entries: Vec<(String, V)>,
}

/// The keys of a list of entries, in order.
spec fn entry_keys<V>(entries: Seq<(String, V)>) -> Seq<Seq<char>> {
    entries.map_values(|e: (String, V)| e.0@)
}

/// In a sequence without duplicates an element is found at its own index only.
proof fn lemma_index_of_unique(keys: Seq<Seq<char>>, i: int)
    requires
        keys.no_duplicates(),
        0 <= i < keys.len(),
    ensures
        keys.index_of(keys[i]) == i,
{
    let j = keys.index_of(keys[i]);
    assert(0 <= j < keys.len() && keys[j] == keys[i]);
}

/// Looks for `key` among the entries.
fn find_key<V>(entries: &Vec<(String, V)>, key: &String) -> (found: Option<usize>)
    ensures
        match found {
            Some(i) => i < entries.len() && entry_keys(entries@)[i as int] == key@,
            None => !entry_keys(entries@).contains(key@),
        },
{
    let mut i: usize = 0;
    while i < entries.len()
        invariant
            i <= entries.len(),
            forall|j: int| 0 <= j < i ==> entry_keys(entries@)[j] != key@,
        decreases entries.len() - i,
    {
        if entries[i].0 == *key {
            return Some(i);
        }
        i = i + 1;
    }
    None
}

impl<V: View> View for OrderedMap<V> {
    type V = Map<Seq<char>, V::V>;

    closed spec fn view(&self) -> Map<Seq<char>, V::V> {
        Map::new(
            |k: Seq<char>| self.keys().contains(k),
            |k: Seq<char>| self.entries[self.keys().index_of(k)].1@,
        )
    }
}

impl<V> OrderedMap<V> {
    #[verifier::type_invariant]
    spec fn keys_are_distinct(self) -> bool {
        entry_keys(self.entries@).no_duplicates()
    }
}

impl<V: View> OrderedMap<V> {
    /// The keys in the order of their first insertion.
    pub closed spec fn keys(&self) -> Seq<Seq<char>> {
        entry_keys(self.entries@)
    }

    /// The keys of the map are exactly the members of its key sequence.
    pub proof fn lemma_dom_is_keys(&self)
        ensures
            forall|k: Seq<char>| self@.contains_key(k) <==> self.keys().contains(k),
    {
    }

    /// An empty map.
    pub fn new() -> (r: Self)
        ensures
            r@ == Map::<Seq<char>, V::V>::empty(),
            r.keys() == Seq::<Seq<char>>::empty(),
    {
        let r = OrderedMap { entries: Vec::new() };
        assert(r@ =~= Map::<Seq<char>, V::V>::empty());
        assert(r.keys() =~= Seq::<Seq<char>>::empty());
        r
    }

    /// The number of keys.
    pub fn len(&self) -> (n: usize)
        ensures
            n == self.keys().len(),
            self.keys().no_duplicates(),
    {
        proof {
            use_type_invariant(self);
        }
        self.entries.len()
    }

    /// Whether the map holds no key.
    pub fn is_empty(&self) -> (r: bool)
        ensures
            r == (self.keys().len() == 0),
    {
        self.entries.len() == 0
    }

    /// The key at position `i` of the insertion order.
    pub fn key_at(&self, i: usize) -> (k: &String)
        requires
            i < self.keys().len(),
        ensures
            k@ == self.keys()[i as int],
    {
        &self.entries[i].0
    }

    /// The value stored under the key at position `i` of the insertion order.
    pub fn value_at(&self, i: usize) -> (v: &V)
        requires
            i < self.keys().len(),
        ensures
            self@.contains_key(self.keys()[i as int]),
            v@ == self@[self.keys()[i as int]],
    {
        proof {
            use_type_invariant(self);
            lemma_index_of_unique(self.keys(), i as int);
        }
        &self.entries[i].1
    }

    /// Whether `key` is present.
    pub fn contains_key(&self, key: &str) -> (r: bool)
        ensures
            r == self@.contains_key(key@),
    {
        let owned: String = key.to_owned();
        find_key(&self.entries, &owned).is_some()
    }

    /// The value stored under `key`, if any.
    pub fn get(&self, key: &str) -> (r: Option<&V>)
        ensures
            match r {
                Some(v) => self@.contains_key(key@) && v@ == self@[key@],
                None => !self@.contains_key(key@),
            },
    {
        proof {
            use_type_invariant(self);
        }
        let owned: String = key.to_owned();
        match find_key(&self.entries, &owned) {
            Some(i) => {
                proof {
                    lemma_index_of_unique(self.keys(), i as int);
                }
                Some(&self.entries[i].1)
            },
            None => None,
        }
    }

    /// Stores `value` under `key` and hands back the value it replaces. A key
    /// that was present keeps its position; a new key goes to the end.
    pub fn insert(&mut self, key: String, value: V) -> (prev: Option<V>)
        ensures
            final(self)@ == old(self)@.insert(key@, value@),
            final(self).keys() == if old(self)@.contains_key(key@) {
                old(self).keys()
            } else {
                old(self).keys().push(key@)
            },
            match prev {
                Some(p) => old(self)@.contains_key(key@) && p@ == old(self)@[key@],
                None => !old(self)@.contains_key(key@),
            },
    {
        proof {
            use_type_invariant(&*self);
        }
        let ghost before = *self;
        let ghost k = key@;
        let ghost val = value@;
        let mut entries: Vec<(String, V)> = Vec::new();
        std::mem::swap(&mut entries, &mut self.entries);
        let found = find_key(&entries, &key);
        entries.push((key, value));
        let prev = match found {
            Some(i) => {
                let replaced = entries.swap_remove(i);
                proof {
                    lemma_index_of_unique(before.keys(), i as int);
                    assert(entry_keys(entries@) =~= before.keys());
                }
                Some(replaced.1)
            },
            None => {
                proof {
                    assert(entry_keys(entries@) =~= before.keys().push(k));
                }
                None
            },
        };
        self.entries = entries;
        proof {
            let n = before.keys().len() as int;
            assert(self.keys().contains(k)) by {
                let at: int = match found {
                    Some(i) => i as int,
                    None => n,
                };
                assert(self.keys()[at] == k);
            }
            assert forall|q: Seq<char>| #[trigger]
                self@.contains_key(q) == before@.insert(k, val).contains_key(q) by {
                if q != k && before.keys().contains(q) {
                    let j = before.keys().index_of(q);
                    assert(self.keys()[j] == q);
                }
                if q != k && self.keys().contains(q) {
                    let j = self.keys().index_of(q);
                    assert(before.keys()[j] == q);
                }
            }
            assert forall|q: Seq<char>| self@.contains_key(q) implies #[trigger] self@[q]
                == before@.insert(k, val)[q] by {
                let j = self.keys().index_of(q);
                lemma_index_of_unique(self.keys(), j);
                if q != k {
                    assert(before.keys()[j] == q);
                    lemma_index_of_unique(before.keys(), j);
                }
            }
            assert(self@ =~= before@.insert(k, val));
        }
        prev
    }
}

} // verus!
