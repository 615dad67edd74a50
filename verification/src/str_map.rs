//! A map from text keys to values, with the mathematical map as its view.

use crate::names::{
    first_named, is_first_named, lemma_position_absent, lemma_position_found,
    lemma_position_of, lemma_some_first, names_of, position_of, Named,
};
use crate::replicate::Replicate;
use vstd::prelude::*;
use vstd::string::*;

verus! {

#[derive(Debug)]
struct Entry<V> {
    key: String,
    value: V,
}

/// A map from text to `V`. Its view is the map from each key's characters to the view of the
/// value stored under it.
#[derive(Debug)]
pub struct StrMap<V> {
    entries: Vec<Entry<V>>,
}

spec fn key_seq<V>(entries: Seq<Entry<V>>) -> Seq<Seq<char>> {
    entries.map_values(|e: Entry<V>| e.key@)
}

impl<V> Named for Entry<V> {
    closed spec fn spec_name(&self) -> Seq<char> {
        self.key@
    }

    fn named(&self) -> (r: &String) {
        &self.key
    }
}

impl<V: DeepView> DeepView for StrMap<V> {
    type V = Map<Seq<char>, V::V>;

    closed spec fn deep_view(&self) -> Map<Seq<char>, V::V> {
        let names = key_seq(self.entries@);
        Map::new(
            |k: Seq<char>| position_of(names, k) is Some,
            |k: Seq<char>| self.entries@[position_of(names, k).unwrap()].value.deep_view(),
        )
    }
}

impl<V: DeepView> View for StrMap<V> {
    type V = Map<Seq<char>, V::V>;

    open spec fn view(&self) -> Map<Seq<char>, V::V> {
        self.deep_view()
    }
}

impl<V> StrMap<V> {
    #[verifier::type_invariant]
    spec fn keys_distinct(self) -> bool {
        key_seq(self.entries@).no_duplicates()
    }

    /// The keys in the order in which they were first inserted.
    pub closed spec fn spec_keys(&self) -> Seq<Seq<char>> {
        key_seq(self.entries@)
    }
}

impl<V: DeepView> StrMap<V> {
    /// A map without entries.
    pub fn new() -> (m: Self)
        ensures
            m@ == Map::<Seq<char>, V::V>::empty(),
            m.spec_keys() == Seq::<Seq<char>>::empty(),
    {
        let m = StrMap { entries: Vec::new() };
        proof {
            assert(key_seq(m.entries@) =~= Seq::<Seq<char>>::empty());
            assert forall|k: Seq<char>| position_of(key_seq(m.entries@), k) is None by {
                lemma_position_absent(key_seq(m.entries@), k);
            }
            assert(m@ =~= Map::<Seq<char>, V::V>::empty());
        }
        m
    }

    fn index_of(&self, key: &str) -> (r: Option<usize>)
        ensures
            match r {
                Some(i) => i < self.entries.len() && position_of(key_seq(self.entries@), key@) == Some(
                    i as int,
                ),
                None => position_of(key_seq(self.entries@), key@) is None,
            },
    {
        proof {
            assert(names_of(self.entries@) =~= key_seq(self.entries@));
        }
        first_named(&self.entries, key)
    }

    /// The number of entries. The keys are distinct, and they are the domain of the view.
    pub fn len(&self) -> (n: usize)
        ensures
            n == self.spec_keys().len(),
            self.spec_keys().no_duplicates(),
            forall|k: Seq<char>| self@.contains_key(k) <==> self.spec_keys().contains(k),
    {
        proof {
            use_type_invariant(self);
            let names = key_seq(self.entries@);
            assert forall|k: Seq<char>| self@.contains_key(k) <==> names.contains(k) by {
                lemma_position_of(names, k);
                if names.contains(k) {
                    let j = choose|j: int| 0 <= j < names.len() && names[j] == k;
                    assert(names[j] == k);
                }
            }
        }
        self.entries.len()
    }

    /// The key of the `i`-th entry.
    pub fn key_at(&self, i: usize) -> (k: &String)
        requires
            i < self.spec_keys().len(),
        ensures
            k@ == self.spec_keys()[i as int],
    {
        &self.entries[i].key
    }

    /// The value of the `i`-th entry.
    pub fn value_at(&self, i: usize) -> (v: &V)
        requires
            i < self.spec_keys().len(),
        ensures
            self@.contains_key(self.spec_keys()[i as int]),
            v.deep_view() == self@[self.spec_keys()[i as int]],
    {
        proof {
            use_type_invariant(self);
            let names = key_seq(self.entries@);
            assert(is_first_named(names, names[i as int], i as int));
            lemma_position_found(names, names[i as int], i as int);
        }
        &self.entries[i].value
    }

    /// Whether the map holds `key`.
    pub fn contains_key(&self, key: &str) -> (r: bool)
        ensures
            r == self@.contains_key(key@),
    {
        self.index_of(key).is_some()
    }

    /// The value stored under `key`.
    pub fn get(&self, key: &str) -> (r: Option<&V>)
        ensures
            match r {
                Some(v) => self@.contains_key(key@) && self@[key@] == v.deep_view(),
                None => !self@.contains_key(key@),
            },
    {
        match self.index_of(key) {
            Some(i) => Some(&self.entries[i].value),
            None => None,
        }
    }

    /// Stores `value` under `key`, in place of what was stored under it before.
    pub fn insert(&mut self, key: String, value: V)
        ensures
            final(self)@ == old(self)@.insert(key@, value.deep_view()),
            final(self).spec_keys() == if old(self)@.contains_key(key@) {
                old(self).spec_keys()
            } else {
                old(self).spec_keys().push(key@)
            },
    {
        proof {
            use_type_invariant(&*self);
        }
        let found = self.index_of(key.as_str());
        let ghost before = self.entries@;
        let ghost names = key_seq(before);
        let ghost k = key@;
        let ghost v = value.deep_view();
        let mut entries: Vec<Entry<V>> = Vec::new();
        std::mem::swap(&mut entries, &mut self.entries);
        match found {
            Some(i) => {
                entries.set(i, Entry { key, value });
                proof {
                    assert(key_seq(entries@) =~= names);
                }
            },
            None => {
                entries.push(Entry { key, value });
                proof {
                    let after = key_seq(entries@);
                    assert(after =~= names.push(k));
                    lemma_position_of(names, k);
                    assert(after.no_duplicates());
                }
            },
        }
        let ghost after = key_seq(entries@);
        proof {
            assert forall|q: Seq<char>|
                position_of(after, q) == (if q == k && found is None {
                    Some(names.len() as int)
                } else {
                    position_of(names, q)
                }) by {
                lemma_position_of(names, q);
                match position_of(names, q) {
                    Some(i) => {
                        assert(is_first_named(after, q, i));
                        lemma_position_found(after, q, i);
                    },
                    None => {
                        if q == k {
                            assert(is_first_named(after, q, names.len() as int));
                            lemma_position_found(after, q, names.len() as int);
                        } else {
                            lemma_position_absent(after, q);
                        }
                    },
                }
            }
        }
        self.entries = entries;
        proof {
            assert(final(self)@ =~= old(self)@.insert(k, v));
        }
    }
}

impl<V: Replicate> Replicate for StrMap<V> {
    fn replicate(&self) -> (r: Self) {
        proof {
            use_type_invariant(self);
        }
        let mut entries: Vec<Entry<V>> = Vec::new();
        let mut i: usize = 0;
        while i < self.entries.len()
            invariant
                i <= self.entries.len(),
                entries.len() == i,
                forall|j: int|
                    0 <= j < i ==> entries[j].key@ == self.entries[j].key@
                        && entries[j].value.deep_view() == self.entries[j].value.deep_view(),
            decreases self.entries.len() - i,
        {
            entries.push(
                Entry { key: self.entries[i].key.clone(), value: self.entries[i].value.replicate() },
            );
            i += 1;
        }
        proof {
            assert(key_seq(entries@) =~= key_seq(self.entries@));
        }
        let r = StrMap { entries };
        proof {
            assert(r.deep_view() =~= self.deep_view());
        }
        r
    }
}

impl<V: Replicate> StrMap<V> {
    /// Stores every entry of `other`, in place of what was stored under its key before.
    pub fn extend(&mut self, other: &StrMap<V>)
        ensures
            final(self)@ == old(self)@.union_prefer_right(other@),
    {
        proof {
            use_type_invariant(other);
        }
        let ghost names = key_seq(other.entries@);
        let mut i: usize = 0;
        while i < other.entries.len()
            invariant
                i <= other.entries.len(),
                names == key_seq(other.entries@),
                names.no_duplicates(),
                forall|k: Seq<char>|
                    self@.contains_key(k) <==> old(self)@.contains_key(k) || (exists|j: int|
                        0 <= j < i && names[j] == k),
                forall|k: Seq<char>|
                    self@.contains_key(k) ==> self@[k] == (if exists|j: int|
                        0 <= j < i && names[j] == k {
                        other@[k]
                    } else {
                        old(self)@[k]
                    }),
            decreases other.entries.len() - i,
        {
            let ghost prev = self@;
            let ghost key = names[i as int];
            proof {
                assert(is_first_named(names, key, i as int));
                lemma_position_found(names, key, i as int);
            }
            self.insert(other.entries[i].key.clone(), other.entries[i].value.replicate());
            proof {
                assert forall|k: Seq<char>|
                    self@.contains_key(k) <==> old(self)@.contains_key(k) || (exists|j: int|
                        0 <= j < i + 1 && names[j] == k) by {
                    if k == key {
                        assert(names[i as int] == k);
                    }
                    if exists|j: int| 0 <= j < i + 1 && names[j] == k {
                        let j = choose|j: int| 0 <= j < i + 1 && names[j] == k;
                        if j < i {
                            assert(prev.contains_key(k));
                        }
                    }
                }
                assert forall|k: Seq<char>| self@.contains_key(k) implies self@[k] == (if exists|
                    j: int,
                | 0 <= j < i + 1 && names[j] == k {
                    other@[k]
                } else {
                    old(self)@[k]
                }) by {
                    if k == key {
                        assert(names[i as int] == k);
                    } else {
                        if exists|j: int| 0 <= j < i + 1 && names[j] == k {
                            let j = choose|j: int| 0 <= j < i + 1 && names[j] == k;
                            assert(j < i);
                        }
                    }
                }
            }
            i += 1;
        }
        proof {
            assert forall|k: Seq<char>| other@.contains_key(k) <==> (exists|j: int|
                0 <= j < i && names[j] == k) by {
                lemma_position_of(names, k);
                if exists|j: int| 0 <= j < i && names[j] == k {
                    let j = choose|j: int| 0 <= j < i && names[j] == k;
                    lemma_some_first(names, k, j);
                }
            }
            assert(self@ =~= old(self)@.union_prefer_right(other@));
        }
    }
}

} // verus!
