//! Tables keyed by name, as the configuration holds them.
use vstd::prelude::*;
use vstd::std_specs::cmp::{PartialEqSpec, PartialEqSpecImpl};
use crate::sequences::{
    keys_of, lemma_lookup_keys, lemma_lookup_push, lemma_lookup_skip, lemma_lookup_update, lookup,
    names_of, Name,
};

verus! {

/// The entries as contracts see them: the key's characters, the value as it is.
pub open spec fn entries_of<V>(items: Seq<(String, V)>) -> Seq<(Name, V)> {
    items.map_values(|e: (String, V)| (e.0@, e.1))
}

/// Under keys that all differ, each key finds the value of its own entry.
proof fn lemma_lookup_at<V>(entries: Seq<(Name, V)>, j: int)
    requires
        keys_of(entries).no_duplicates(),
        0 <= j < entries.len(),
    ensures
        lookup(entries, entries[j].0) == Some(entries[j].1),
{
    assert forall|i: int| 0 <= i < j implies entries[i].0 != entries[j].0 by {
        assert(keys_of(entries)[i] != keys_of(entries)[j]);
    }
    lemma_lookup_skip(entries, entries[j].0, j);
    assert(entries.subrange(j, entries.len() as int)[0] == entries[j]);
}

/// A table from names to values. A key occurs in it once; the order of the
/// entries carries no meaning, and two tables that hold equal values under
/// the same keys are equal.
#[derive(Debug)]
pub struct Table<V> {
    entries: Vec<(String, V)>,
}

impl<V> View for Table<V> {
    type V = Map<Name, V>;

    closed spec fn view(&self) -> Map<Name, V> {
        Map::new(
            |key: Name| lookup(entries_of(self.entries@), key) is Some,
            |key: Name| lookup(entries_of(self.entries@), key)->0,
        )
    }
}

/// Under the same keys in the same order, with each value a clone of the
/// one in its place, a key finds a clone of what it found before.
proof fn lemma_lookup_cloned<V: Clone>(a: Seq<(Name, V)>, b: Seq<(Name, V)>, key: Name)
    requires
        a.len() == b.len(),
        forall|i: int| 0 <= i < a.len() ==> a[i].0 == b[i].0 && cloned::<V>(a[i].1, b[i].1),
    ensures
        lookup(a, key) is Some <==> lookup(b, key) is Some,
        lookup(a, key) is Some ==> cloned::<V>(lookup(a, key)->0, lookup(b, key)->0),
    decreases a.len(),
{
    if a.len() > 0 {
        assert(a[0].0 == b[0].0 && cloned::<V>(a[0].1, b[0].1));
        assert forall|i: int| 0 <= i < a.drop_first().len() implies a.drop_first()[i].0
            == b.drop_first()[i].0 && cloned::<V>(a.drop_first()[i].1, b.drop_first()[i].1) by {
            assert(a[i + 1].0 == b[i + 1].0 && cloned::<V>(a[i + 1].1, b[i + 1].1));
        }
        lemma_lookup_cloned(a.drop_first(), b.drop_first(), key);
    }
}

impl<V: Clone> Clone for Table<V> {
    fn clone(&self) -> (r: Self)
        ensures
            r@.dom() == self@.dom(),
            r.key_order() == self.key_order(),
            forall|key: Name| #[trigger] r@.contains_key(key) ==> cloned::<V>(self@[key], r@[key]),
    {
        proof {
            use_type_invariant(self);
        }
        let mut entries: Vec<(String, V)> = Vec::new();
        let mut i: usize = 0;
        while i < self.entries.len()
            invariant
                i <= self.entries.len(),
                entries.len() == i,
                forall|j: int|
                    0 <= j < i ==> entries[j].0@ == self.entries[j].0@ && cloned::<V>(
                        self.entries[j].1,
                        entries[j].1,
                    ),
            decreases self.entries.len() - i,
        {
            entries.push((self.entries[i].0.clone(), self.entries[i].1.clone()));
            i += 1;
        }
        proof {
            let a = entries_of(self.entries@);
            let b = entries_of(entries@);
            assert(keys_of(b) =~= keys_of(a));
            assert forall|key: Name|
                (lookup(a, key) is Some <==> lookup(b, key) is Some) && (lookup(a, key) is Some
                    ==> cloned::<V>(lookup(a, key)->0, lookup(b, key)->0)) by {
                lemma_lookup_cloned(a, b, key);
            }
        }
        let r = Table { entries };
        assert(r@.dom() =~= self@.dom());
        r
    }
}

impl<V: PartialEq> PartialEq for Table<V> {
    fn eq(&self, other: &Self) -> (r: bool) {
        self.held_by(other) && other.keys_held_by(self)
    }
}

impl<V: PartialEq> PartialEqSpecImpl for Table<V> {
    open spec fn obeys_eq_spec() -> bool {
        V::obeys_eq_spec()
    }

    open spec fn eq_spec(&self, other: &Table<V>) -> bool {
        &&& forall|key: Name| self@.contains_key(key) <==> other@.contains_key(key)
        &&& forall|key: Name| #[trigger]
            self@.contains_key(key) ==> self@[key].eq_spec(&other@[key])
    }
}

impl<V: Eq> Eq for Table<V> {

}

impl<V: PartialEq> Table<V> {
    /// Whether `other` has every key of this table, with an equal value
    /// under it.
    fn held_by(&self, other: &Self) -> (r: bool)
        ensures
            V::obeys_eq_spec() ==> r == (forall|key: Name| #[trigger]
                self@.contains_key(key) ==> other@.contains_key(key) && self@[key].eq_spec(
                    &other@[key],
                )),
    {
        proof {
            use_type_invariant(self);
        }
        let ghost all = entries_of(self.entries@);
        let mut i: usize = 0;
        while i < self.entries.len()
            invariant
                i <= self.entries.len(),
                all == entries_of(self.entries@),
                keys_of(all).no_duplicates(),
                V::obeys_eq_spec() ==> forall|j: int|
                    0 <= j < i ==> other@.contains_key(#[trigger] all[j].0) && all[j].1.eq_spec(
                        &other@[all[j].0],
                    ),
            decreases self.entries.len() - i,
        {
            let entry = &self.entries[i];
            proof {
                lemma_lookup_at(all, i as int);
                assert(all[i as int] == (entry.0@, entry.1));
            }
            let same = match other.get(entry.0.as_str()) {
                Some(value) => entry.1 == *value,
                None => false,
            };
            if !same {
                assert(self@.contains_key(entry.0@) && self@[entry.0@] == entry.1);
                return false;
            }
            i += 1;
        }
        proof {
            if V::obeys_eq_spec() {
                assert forall|key: Name| #[trigger] self@.contains_key(key) implies other@.contains_key(
                    key,
                ) && self@[key].eq_spec(&other@[key]) by {
                    lemma_lookup_keys(all, key);
                    let j = choose|j: int| 0 <= j < keys_of(all).len() && keys_of(all)[j] == key;
                    lemma_lookup_at(all, j);
                    assert(all[j].0 == key);
                }
            }
        }
        true
    }
}

impl<V> Table<V> {
    /// Whether `other` has every key of this table.
    fn keys_held_by(&self, other: &Self) -> (r: bool)
        ensures
            r == (forall|key: Name| #[trigger] self@.contains_key(key) ==> other@.contains_key(key)),
    {
        let ghost all = entries_of(self.entries@);
        let mut i: usize = 0;
        while i < self.entries.len()
            invariant
                i <= self.entries.len(),
                all == entries_of(self.entries@),
                forall|j: int| 0 <= j < i ==> other@.contains_key(#[trigger] all[j].0),
            decreases self.entries.len() - i,
        {
            if !other.contains_key(self.entries[i].0.as_str()) {
                proof {
                    let key = self.entries[i as int].0@;
                    lemma_lookup_keys(all, key);
                    assert(keys_of(all)[i as int] == key);
                    assert(keys_of(all).contains(key));
                    assert(self@.contains_key(key) && !other@.contains_key(key));
                }
                return false;
            }
            i += 1;
        }
        proof {
            assert forall|key: Name| #[trigger] self@.contains_key(key) implies other@.contains_key(
                key,
            ) by {
                lemma_lookup_keys(all, key);
                let j = choose|j: int| 0 <= j < keys_of(all).len() && keys_of(all)[j] == key;
                assert(all[j].0 == key);
            }
        }
        true
    }

    /// No key occurs twice.
    #[verifier::type_invariant]
    spec fn distinct_keys(self) -> bool {
        keys_of(entries_of(self.entries@)).no_duplicates()
    }

    /// The keys in the order in which the table stores them.
    pub closed spec fn key_order(&self) -> Seq<Name> {
        keys_of(entries_of(self.entries@))
    }

    /// The stored keys are the keys of the view.
    pub proof fn lemma_key_order(&self, key: Name)
        ensures
            self.key_order().contains(key) <==> self@.contains_key(key),
    {
        lemma_lookup_keys(entries_of(self.entries@), key);
    }

    /// The table without entries.
    pub fn new() -> (r: Self)
        ensures
            r@ == Map::<Name, V>::empty(),
    {
        let entries: Vec<(String, V)> = Vec::new();
        assert(keys_of(entries_of(entries@)) =~= Seq::<Name>::empty());
        let r = Table { entries };
        assert(r@ =~= Map::<Name, V>::empty());
        r
    }

    /// The position of the entry named `key`, if the table has it.
    fn position(&self, key: &String) -> (r: Option<usize>)
        ensures
            match r {
                Some(i) => i < self.entries.len() && self.entries[i as int].0@ == key@
                    && lookup(entries_of(self.entries@), key@) == Some(self.entries[i as int].1)
                    && forall|j: int| 0 <= j < i ==> self.entries[j].0@ != key@,
                None => lookup(entries_of(self.entries@), key@) is None
                    && forall|j: int| 0 <= j < self.entries.len() ==> self.entries[j].0@ != key@,
            },
    {
        let ghost all = entries_of(self.entries@);
        let mut i: usize = 0;
        while i < self.entries.len()
            invariant
                i <= self.entries.len(),
                all == entries_of(self.entries@),
                forall|j: int| 0 <= j < i ==> self.entries[j].0@ != key@,
            decreases self.entries.len() - i,
        {
            if self.entries[i].0 == *key {
                proof {
                    lemma_lookup_skip(all, key@, i as int);
                    assert(all.subrange(i as int, all.len() as int)[0] == all[i as int]);
                }
                return Some(i);
            }
            i += 1;
        }
        proof {
            lemma_lookup_skip(all, key@, all.len() as int);
        }
        None
    }

    /// Whether the table has an entry named `key`.
    pub fn contains_key(&self, key: &str) -> (r: bool)
        ensures
            r == self@.contains_key(key@),
    {
        let name = key.to_owned();
        self.position(&name).is_some()
    }

    /// The value stored under `key`, if the table has such an entry.
    pub fn get(&self, key: &str) -> (r: Option<&V>)
        ensures
            match r {
                Some(value) => self@.contains_key(key@) && *value == self@[key@],
                None => !self@.contains_key(key@),
            },
    {
        let name = key.to_owned();
        match self.position(&name) {
            Some(i) => Some(&self.entries[i].1),
            None => None,
        }
    }

    /// Stores `value` under `key`, in place of what was stored there.
    pub fn insert(&mut self, key: String, value: V)
        ensures
            final(self)@ == old(self)@.insert(key@, value),
    {
        let ghost before = entries_of(self.entries@);
        let ghost name = key@;
        let found = self.position(&key);
        proof {
            use_type_invariant(&*self);
        }
        let mut entries: Vec<(String, V)> = Vec::new();
        assert(keys_of(entries_of(entries@)) =~= Seq::<Name>::empty());
        core::mem::swap(&mut self.entries, &mut entries);
        match found {
            Some(i) => {
                entries.set(i, (key, value));
                proof {
                    let after = entries_of(entries@);
                    assert(after =~= before.update(i as int, (name, value)));
                    assert(keys_of(after) =~= keys_of(before));
                    assert forall|other: Name| #[trigger]
                        lookup(after, other) == if other == name {
                            Some(value)
                        } else {
                            lookup(before, other)
                        } by {
                        lemma_lookup_update(before, i as int, name, value, other);
                    }
                }
            },
            None => {
                entries.push((key, value));
                proof {
                    let after = entries_of(entries@);
                    assert(after =~= before.push((name, value)));
                    assert(keys_of(after) =~= keys_of(before).push(name));
                    assert forall|other: Name| #[trigger]
                        lookup(after, other) == if other == name {
                            Some(value)
                        } else {
                            lookup(before, other)
                        } by {
                        lemma_lookup_push(before, name, value, other);
                    }
                }
            },
        }
        self.entries = entries;
        assert(self@ =~= old(self)@.insert(name, value));
    }

    /// The keys, each one a copy and each once, in the order in which the
    /// table stores them.
    pub fn keys(&self) -> (r: Vec<String>)
        ensures
            names_of(r@) == self.key_order(),
            names_of(r@).no_duplicates(),
    {
        proof {
            use_type_invariant(self);
        }
        let mut out: Vec<String> = Vec::new();
        let mut i: usize = 0;
        while i < self.entries.len()
            invariant
                i <= self.entries.len(),
                out.len() == i,
                forall|j: int| 0 <= j < i ==> out[j]@ == self.entries[j].0@,
            decreases self.entries.len() - i,
        {
            out.push(self.entries[i].0.clone());
            i += 1;
        }
        assert(names_of(out@) =~= self.key_order());
        out
    }
}

} // verus!
