//! A set of texts, held as a list in which nothing occurs twice.

use vstd::prelude::*;

verus! {

/// A finite set of texts.
#[derive(Debug)]
pub struct StringSet {
    items: Vec<String>,
}

/// The texts of a list of strings, in order.
pub open spec fn texts(items: Seq<String>) -> Seq<Seq<char>> {
    items.map_values(|s: String| s@)
}

/// Looks for `item` in the list.
fn find_item(items: &Vec<String>, item: &String) -> (found: Option<usize>)
    ensures
        match found {
            Some(i) => i < items.len() && items[i as int]@ == item@,
            None => !texts(items@).contains(item@),
        },
{
    let mut i: usize = 0;
    while i < items.len()
        invariant
            i <= items.len(),
            forall|j: int| 0 <= j < i ==> texts(items@)[j] != item@,
        decreases items.len() - i,
    {
        if items[i] == *item {
            return Some(i);
        }
        i = i + 1;
    }
    None
}

impl View for StringSet {
    type V = Set<Seq<char>>;

    closed spec fn view(&self) -> Set<Seq<char>> {
        texts(self.items@).to_set()
    }
}

impl Clone for StringSet {
    fn clone(&self) -> (copy: Self)
        ensures
            copy@ == self@,
            copy.members() == self.members(),
    {
        proof {
            use_type_invariant(self);
        }
        let mut items: Vec<String> = Vec::new();
        let mut i: usize = 0;
        while i < self.items.len()
            invariant
                i <= self.items.len(),
                items@ == self.items@.take(i as int),
            decreases self.items.len() - i,
        {
            items.push(self.items[i].clone());
            proof {
                assert(self.items@.take(i + 1) =~= self.items@.take(i as int).push(
                    self.items@[i as int],
                ));
            }
            i = i + 1;
        }
        proof {
            assert(self.items@.take(i as int) =~= self.items@);
        }
        StringSet { items }
    }
}

impl StringSet {
    #[verifier::type_invariant]
    spec fn items_are_distinct(self) -> bool {
        texts(self.items@).no_duplicates()
    }

    /// The members in the order in which they were inserted.
    pub closed spec fn members(&self) -> Seq<Seq<char>> {
        texts(self.items@)
    }

    /// The set holds exactly the members of its list.
    pub proof fn lemma_view_is_members(&self)
        ensures
            self@ == self.members().to_set(),
    {
    }

    /// The empty set.
    pub fn new() -> (r: Self)
        ensures
            r@ == Set::<Seq<char>>::empty(),
            r.members() == Seq::<Seq<char>>::empty(),
    {
        let r = StringSet { items: Vec::new() };
        assert(r@ =~= Set::<Seq<char>>::empty());
        assert(r.members() =~= Seq::<Seq<char>>::empty());
        r
    }

    /// The number of members.
    pub fn len(&self) -> (n: usize)
        ensures
            self@.finite(),
            n == self@.len(),
            n == self.members().len(),
            self.members().no_duplicates(),
    {
        proof {
            use_type_invariant(self);
            texts(self.items@).unique_seq_to_set();
        }
        self.items.len()
    }

    /// Whether the set has no member.
    pub fn is_empty(&self) -> (r: bool)
        ensures
            r == (self@ == Set::<Seq<char>>::empty()),
    {
        proof {
            if self.items.len() == 0 {
                assert(self@ =~= Set::<Seq<char>>::empty());
            } else {
                assert(texts(self.items@)[0] == self.items[0]@);
                assert(self@.contains(self.items[0]@));
            }
        }
        self.items.len() == 0
    }

    /// The member at position `i` of the insertion order.
    pub fn member_at(&self, i: usize) -> (m: &String)
        requires
            i < self.members().len(),
        ensures
            m@ == self.members()[i as int],
            self@.contains(m@),
    {
        proof {
            assert(texts(self.items@)[i as int] == self.items[i as int]@);
        }
        &self.items[i]
    }

    /// Whether `item` is a member.
    pub fn contains(&self, item: &str) -> (r: bool)
        ensures
            r == self@.contains(item@),
    {
        let owned: String = item.to_owned();
        let found = find_item(&self.items, &owned);
        proof {
            if let Some(i) = found {
                assert(texts(self.items@)[i as int] == item@);
            }
        }
        found.is_some()
    }

    /// Adds `item`; says whether it was new.
    pub fn insert(&mut self, item: String) -> (fresh: bool)
        ensures
            final(self)@ == old(self)@.insert(item@),
            fresh == !old(self)@.contains(item@),
            final(self).members() == if fresh {
                old(self).members().push(item@)
            } else {
                old(self).members()
            },
    {
        proof {
            use_type_invariant(&*self);
        }
        let ghost before = *self;
        let ghost t = item@;
        let mut items: Vec<String> = Vec::new();
        std::mem::swap(&mut items, &mut self.items);
        let found = find_item(&items, &item);
        let fresh = found.is_none();
        if fresh {
            items.push(item);
            proof {
                assert(texts(items@) =~= before.members().push(t));
            }
        }
        self.items = items;
        proof {
            if let Some(i) = found {
                assert(before.members()[i as int] == t);
            }
            assert forall|q: Seq<char>| #[trigger] self@.contains(q) == before@.insert(t).contains(
                q,
            ) by {
                if before.members().contains(q) {
                    let j = before.members().index_of(q);
                    assert(self.members()[j] == q);
                }
                if fresh {
                    assert(self.members()[before.members().len() as int] == t);
                }
                if self.members().contains(q) && q != t {
                    let j = self.members().index_of(q);
                    assert(before.members()[j] == q);
                }
            }
            assert(self@ =~= before@.insert(t));
        }
        fresh
    }

    /// Removes `item`; says whether it was a member.
    pub fn remove(&mut self, item: &str) -> (was_member: bool)
        ensures
            final(self)@ == old(self)@.remove(item@),
            was_member == old(self)@.contains(item@),
    {
        proof {
            use_type_invariant(&*self);
        }
        let ghost before = *self;
        let owned: String = item.to_owned();
        let mut items: Vec<String> = Vec::new();
        std::mem::swap(&mut items, &mut self.items);
        let found = find_item(&items, &owned);
        match found {
            Some(i) => {
                let _gone = items.remove(i);
                proof {
                    assert(texts(items@) =~= before.members().remove(i as int));
                    assert(before.members()[i as int] == item@);
                }
            },
            None => {},
        }
        self.items = items;
        proof {
            assert forall|q: Seq<char>| #[trigger] self@.contains(q) == before@.remove(
                item@,
            ).contains(q) by {
                match found {
                    Some(i) => {
                        if before.members().contains(q) && q != item@ {
                            let j = before.members().index_of(q);
                            if j < i {
                                assert(self.members()[j] == q);
                            } else {
                                assert(self.members()[j - 1] == q);
                            }
                        }
                        if self.members().contains(q) {
                            let j = self.members().index_of(q);
                            if j < i {
                                assert(before.members()[j] == q);
                            } else {
                                assert(before.members()[j + 1] == q);
                            }
                        }
                    },
                    None => {},
                }
            }
            assert(self@ =~= before@.remove(item@));
        }
        found.is_some()
    }
}

} // verus!
