//! Sets of texts and maps from texts.

use crate::text;
use vstd::prelude::*;

verus! {

/// A set of texts.
#[derive(Debug)]
pub struct TextSet {
    items: Vec<String>,
}

impl View for TextSet {
    type V = Set<Seq<char>>;

    closed spec fn view(&self) -> Set<Seq<char>> {
        self.items.deep_view().to_set()
    }
}

impl TextSet {
    #[verifier::type_invariant]
    spec fn inv(self) -> bool {
        self.items.deep_view().no_duplicates()
    }

    /// The empty set.
    pub fn new() -> (r: Self)
        ensures
            r@ == Set::<Seq<char>>::empty(),
    {
        let items: Vec<String> = Vec::new();
        proof {
            assert(items.deep_view() =~= seq![]);
        }
        let r = TextSet { items };
        proof {
            assert(r@ =~= Set::<Seq<char>>::empty());
        }
        r
    }

    fn find(&self, item: &str) -> (r: Option<usize>)
        ensures
            match r {
                Some(i) => i < self.items@.len() && self.items@[i as int]@ == item@,
                None => forall|j: int|
                    0 <= j < self.items@.len() ==> (#[trigger] self.items@[j])@ != item@,
            },
    {
        let mut i: usize = 0;
        while i < self.items.len()
            invariant
                i <= self.items.len(),
                forall|j: int| 0 <= j < i ==> (#[trigger] self.items@[j])@ != item@,
            decreases self.items.len() - i,
        {
            if text::same(self.items[i].as_str(), item) {
                return Some(i);
            }
            i += 1;
        }
        None
    }

    /// Tells whether a text is in the set.
    pub fn contains(&self, item: &str) -> (r: bool)
        ensures
            r == self@.contains(item@),
    {
        let ghost all = self.items.deep_view();
        match self.find(item) {
            Some(i) => {
                proof {
                    assert(all[i as int] == item@);
                }
                true
            },
            None => {
                proof {
                    assert forall|j: int| 0 <= j < all.len() implies all[j] != item@ by {
                        assert(all[j] == self.items@[j]@);
                    }
                }
                false
            },
        }
    }

    /// The number of texts in the set.
    pub fn len(&self) -> (r: usize)
        ensures
            self@.finite(),
            r == self@.len(),
    {
        proof {
            use_type_invariant(self);
            self.items.deep_view().unique_seq_to_set();
            vstd::seq_lib::seq_to_set_is_finite(self.items.deep_view());
        }
        self.items.len()
    }

    /// Puts a text into the set, and tells whether it was not there before.
    pub fn insert(&mut self, item: &str) -> (r: bool)
        ensures
            final(self)@ == old(self)@.insert(item@),
            r == !old(self)@.contains(item@),
    {
        let ghost before = self@;
        if self.contains(item) {
            proof {
                assert(before.insert(item@) =~= before);
            }
            return false;
        }
        proof {
            use_type_invariant(&*self);
        }
        let mut items: Vec<String> = Vec::new();
        proof {
            assert(items.deep_view() =~= seq![]);
        }
        std::mem::swap(&mut items, &mut self.items);
        let ghost all = items.deep_view();
        items.push(item.to_owned());
        proof {
            assert(items.deep_view() =~= all.push(item@));
            assert forall|i: int, j: int|
                0 <= i < items.deep_view().len() && 0 <= j < items.deep_view().len() && i
                    != j implies items.deep_view()[i] != items.deep_view()[j] by {
                if i < all.len() {
                    assert(all.contains(all[i]));
                }
                if j < all.len() {
                    assert(all.contains(all[j]));
                }
            }
        }
        self.items = items;
        proof {
            let after = all.push(item@);
            assert forall|x: Seq<char>| #[trigger] after.contains(x) <==> all.contains(x) || x
                == item@ by {
                if all.contains(x) {
                    let i = choose|i: int| 0 <= i < all.len() && all[i] == x;
                    assert(after[i] == x);
                }
                assert(after[all.len() as int] == item@);
            }
            assert(self@ =~= before.insert(item@));
        }
        true
    }

    /// Takes a text out of the set.
    pub fn remove(&mut self, item: &str)
        ensures
            final(self)@ == old(self)@.remove(item@),
    {
        let ghost before = self@;
        let ghost all = self.items.deep_view();
        let at: usize = match self.find(item) {
            Some(i) => i,
            None => {
                proof {
                    assert forall|j: int| 0 <= j < all.len() implies all[j] != item@ by {
                        assert(all[j] == self.items@[j]@);
                    }
                    assert(before.remove(item@) =~= before);
                }
                return;
            },
        };
        proof {
            use_type_invariant(&*self);
        }
        let mut items: Vec<String> = Vec::new();
        proof {
            assert(items.deep_view() =~= seq![]);
        }
        std::mem::swap(&mut items, &mut self.items);
        let _ = items.remove(at);
        proof {
            let after = items.deep_view();
            assert(all[at as int] == item@);
            assert(after =~= all.remove(at as int));
            assert forall|i: int, j: int|
                0 <= i < after.len() && 0 <= j < after.len() && i != j implies after[i]
                != after[j] by {
                let p = if i < at {
                    i
                } else {
                    i + 1
                };
                let q = if j < at {
                    j
                } else {
                    j + 1
                };
                assert(after[i] == all[p] && after[j] == all[q]);
            }
        }
        self.items = items;
        proof {
            let after = all.remove(at as int);
            assert forall|x: Seq<char>| #[trigger] after.contains(x) <==> all.contains(x) && x
                != item@ by {
                if after.contains(x) {
                    let i = choose|i: int| 0 <= i < after.len() && after[i] == x;
                    let p = if i < at {
                        i
                    } else {
                        i + 1
                    };
                    assert(all[p] == x);
                    assert(p != at);
                }
                if all.contains(x) && x != item@ {
                    let i = choose|i: int| 0 <= i < all.len() && all[i] == x;
                    let p = if i < at {
                        i
                    } else {
                        i - 1
                    };
                    assert(after[p] == x);
                }
            }
            assert(self@ =~= before.remove(item@));
        }
    }
}

/// A map from texts.
#[derive(Debug)]
pub struct TextMap<V> {
    entries: Vec<(String, V)>,
}

/// The position of a key, or the length.
spec fn key_index<V>(entries: Seq<(String, V)>, key: Seq<char>) -> int
    decreases entries.len(),
{
    if entries.len() == 0 || entries[0].0@ == key {
        0
    } else {
        1 + key_index(entries.skip(1), key)
    }
}

proof fn lemma_key_index<V>(entries: Seq<(String, V)>, key: Seq<char>)
    ensures
        0 <= key_index(entries, key) <= entries.len(),
        forall|j: int| 0 <= j < key_index(entries, key) ==> (#[trigger] entries[j]).0@ != key,
        key_index(entries, key) < entries.len() ==> entries[key_index(entries, key)].0@ == key,
    decreases entries.len(),
{
    if entries.len() > 0 && entries[0].0@ != key {
        let rest = entries.skip(1);
        lemma_key_index(rest, key);
        assert forall|j: int| 0 <= j < key_index(entries, key) implies (
        #[trigger] entries[j]).0@ != key by {
            if j > 0 {
                assert(rest[j - 1] == entries[j]);
            }
        }
    }
}

proof fn lemma_key_index_is<V>(entries: Seq<(String, V)>, key: Seq<char>, i: int)
    requires
        0 <= i <= entries.len(),
        forall|j: int| 0 <= j < i ==> (#[trigger] entries[j]).0@ != key,
        i < entries.len() ==> entries[i].0@ == key,
    ensures
        key_index(entries, key) == i,
{
    lemma_key_index(entries, key);
}

impl<V: View> View for TextMap<V> {
    type V = Map<Seq<char>, V::V>;

    closed spec fn view(&self) -> Map<Seq<char>, V::V> {
        Map::new(
            |key: Seq<char>| key_index(self.entries@, key) < self.entries@.len(),
            |key: Seq<char>| self.entries@[key_index(self.entries@, key)].1@,
        )
    }
}

impl<V: View> TextMap<V> {
    /// The empty map.
    pub fn new() -> (r: Self)
        ensures
            r@ == Map::<Seq<char>, V::V>::empty(),
    {
        let r = TextMap { entries: Vec::new() };
        proof {
            assert(r@ =~= Map::<Seq<char>, V::V>::empty());
        }
        r
    }

    fn find(&self, key: &str) -> (r: usize)
        ensures
            r == key_index(self.entries@, key@),
            r <= self.entries@.len(),
    {
        let mut i: usize = 0;
        while i < self.entries.len() && !text::same(self.entries[i].0.as_str(), key)
            invariant
                i <= self.entries.len(),
                forall|j: int| 0 <= j < i ==> (#[trigger] self.entries@[j]).0@ != key@,
            decreases self.entries.len() - i,
        {
            i += 1;
        }
        proof {
            lemma_key_index_is(self.entries@, key@, i as int);
        }
        i
    }

    /// The value of a key.
    pub fn get(&self, key: &str) -> (r: Option<&V>)
        ensures
            match r {
                Some(v) => self@.contains_key(key@) && self@[key@] == v@,
                None => !self@.contains_key(key@),
            },
    {
        let i: usize = self.find(key);
        if i < self.entries.len() {
            Some(&self.entries[i].1)
        } else {
            None
        }
    }

    /// Gives a key a value.
    pub fn insert(&mut self, key: &str, value: V)
        ensures
            final(self)@ == old(self)@.insert(key@, value@),
    {
        let i: usize = self.find(key);
        let ghost all = self.entries@;
        let ghost before = self@;
        let entry = (key.to_owned(), value);
        let ghost added = entry;
        if i < self.entries.len() {
            self.entries.set(i, entry);
        } else {
            self.entries.push(entry);
        }
        proof {
            let now = self.entries@;
            lemma_key_index(all, key@);
            assert forall|k: Seq<char>| key_index(now, k) == (if k == key@ {
                i as int
            } else if #[trigger] key_index(all, k) < all.len() {
                key_index(all, k)
            } else {
                now.len() as int
            }) by {
                lemma_key_index(all, k);
                let x = key_index(all, k);
                if k == key@ {
                    lemma_key_index_is(now, k, i as int);
                } else if x < all.len() {
                    assert(x != i);
                    assert forall|j: int| 0 <= j < x implies (#[trigger] now[j]).0@ != k by {
                        if j != i {
                            assert(now[j] == all[j]);
                        }
                    }
                    lemma_key_index_is(now, k, x);
                } else {
                    assert forall|j: int| 0 <= j < now.len() implies (
                    #[trigger] now[j]).0@ != k by {
                        if j != i {
                            assert(now[j] == all[j]);
                        }
                    }
                    lemma_key_index_is(now, k, now.len() as int);
                }
            }
            assert forall|k: Seq<char>| self@.contains_key(k) <==> before.insert(
                key@,
                value@,
            ).contains_key(k) by {
                assert(key_index(now, k) == key_index(now, k));
                lemma_key_index(all, k);
                let x = key_index(all, k);
            }
            assert forall|k: Seq<char>| self@.contains_key(k) implies self@[k] == before.insert(
                key@,
                value@,
            )[k] by {
                lemma_key_index(all, k);
                let x = key_index(all, k);
            }
            assert(self@ =~= before.insert(key@, value@));
        }
    }

    /// Takes a key and every value of it away.
    pub fn remove(&mut self, key: &str) -> (r: Option<V>)
        ensures
            final(self)@ == old(self)@.remove(key@),
            match r {
                Some(v) => old(self)@.contains_key(key@) && old(self)@[key@] == v@,
                None => !old(self)@.contains_key(key@),
            },
    {
        let ghost before = self@;
        let ghost all = self.entries@;
        let mut kept: Vec<(String, V)> = Vec::new();
        let mut found: Option<V> = None;
        let mut left: Vec<(String, V)> = Vec::new();
        std::mem::swap(&mut left, &mut self.entries);
        let ghost mut done: int = 0;
        proof {
            assert(all.skip(0) =~= all);
        }
        while left.len() > 0
            invariant
                0 <= done <= all.len(),
                left@ == all.skip(done),
                forall|k: Seq<char>|
                    k != key@ ==> lookup(all, k) == (match #[trigger] lookup(kept@, k) {
                        Some(v) => Some(v),
                        None => lookup(all.skip(done), k),
                    }),
                lookup(kept@, key@) is None,
                match found {
                    Some(v) => lookup(all, key@) == Some(v@),
                    None => lookup(all, key@) == lookup(all.skip(done), key@),
                },
            decreases left.len(),
        {
            let entry = left.remove(0);
            proof {
                assert(all.skip(done)[0] == entry);
                assert(all.skip(done).skip(1) =~= all.skip(done + 1));
                assert(left@ =~= all.skip(done + 1));
            }
            let ghost current = all.skip(done);
            let ghost earlier = kept@;
            proof {
                assert forall|k: Seq<char>| #[trigger] lookup(current, k) == (if entry.0@ == k {
                    Some(entry.1@)
                } else {
                    lookup(all.skip(done + 1), k)
                }) by {
                    lemma_lookup_first(current, k);
                }
                assert(lookup(current, key@) == lookup(current, key@));
            }
            if text::same(entry.0.as_str(), key) {
                proof {
                    assert(lookup(current, key@) == Some(entry.1@));
                }
                if found.is_none() {
                    found = Some(entry.1);
                }
            } else {
                kept.push(entry);
                proof {
                    assert forall|k: Seq<char>| #[trigger] lookup(kept@, k) == (match lookup(
                        earlier,
                        k,
                    ) {
                        Some(v) => Some(v),
                        None => if k == entry.0@ {
                            Some(entry.1@)
                        } else {
                            None
                        },
                    }) by {
                        lemma_lookup_push(earlier, entry, k);
                    }
                }
            }
            proof {
                assert forall|k: Seq<char>| k != key@ implies lookup(all, k) == (
                match #[trigger] lookup(kept@, k) {
                    Some(v) => Some(v),
                    None => lookup(all.skip(done + 1), k),
                }) by {
                    assert(lookup(earlier, k) == lookup(earlier, k));
                    assert(lookup(current, k) == lookup(current, k));
                }
                done = done + 1;
            }
        }
        proof {
            assert(all.skip(done) =~= Seq::<(String, V)>::empty());
        }
        self.entries = kept;
        proof {
            assert forall|k: Seq<char>| self@.contains_key(k) <==> before.remove(
                key@,
            ).contains_key(k) by {
                lemma_key_index(all, k);
                lemma_key_index(self.entries@, k);
                assert(lookup(self.entries@, k) == lookup(self.entries@, k));
                if k != key@ {
                    assert(lookup(all, k) == lookup(self.entries@, k));
                }
            }
            assert forall|k: Seq<char>| self@.contains_key(k) implies self@[k] == before.remove(
                key@,
            )[k] by {
                assert(k != key@);
                assert(lookup(all, k) == lookup(self.entries@, k));
            }
            assert(self@ =~= before.remove(key@));
        }
        found
    }
}

/// The value of a key, by what it holds.
spec fn lookup<V: View>(entries: Seq<(String, V)>, key: Seq<char>) -> Option<V::V> {
    if key_index(entries, key) < entries.len() {
        Some(entries[key_index(entries, key)].1@)
    } else {
        None
    }
}

proof fn lemma_lookup_first<V: View>(entries: Seq<(String, V)>, key: Seq<char>)
    requires
        entries.len() > 0,
    ensures
        lookup(entries, key) == (if entries[0].0@ == key {
            Some(entries[0].1@)
        } else {
            lookup(entries.skip(1), key)
        }),
{
    lemma_key_index(entries.skip(1), key);
}

proof fn lemma_lookup_push<V: View>(entries: Seq<(String, V)>, entry: (String, V), key: Seq<char>)
    ensures
        lookup(entries.push(entry), key) == (match lookup(entries, key) {
            Some(v) => Some(v),
            None => if key == entry.0@ {
                Some(entry.1@)
            } else {
                None
            },
        }),
{
    lemma_key_index(entries, key);
    let now = entries.push(entry);
    let i = key_index(entries, key);
    assert forall|j: int| 0 <= j < i implies (#[trigger] now[j]).0@ != key by {
        assert(now[j] == entries[j]);
    }
    if i < entries.len() || key == entry.0@ {
        lemma_key_index_is(now, key, i);
    } else {
        lemma_key_index_is(now, key, now.len() as int);
    }
}

} // verus!
