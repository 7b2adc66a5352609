//! A small map from names to values that keeps the order in which names
//! were first inserted.

use crate::text::str_eq;
use vstd::prelude::*;

verus! {

/// Whether some entry has the name `name`.
pub open spec fn has_name<V>(entries: Seq<(Seq<char>, V)>, name: Seq<char>) -> bool {
    exists|i: int| 0 <= i < entries.len() && (#[trigger] entries[i]).0 == name
}

/// No two entries share a name.
pub open spec fn distinct_names<V>(entries: Seq<(Seq<char>, V)>) -> bool {
    forall|i: int, j: int|
        0 <= i < j < entries.len() ==> (#[trigger] entries[i]).0 != (#[trigger] entries[j]).0
}

/// The position of the entry named `name`, where there is one.
pub open spec fn index_of_name<V>(entries: Seq<(Seq<char>, V)>, name: Seq<char>) -> int {
    choose|i: int| 0 <= i < entries.len() && (#[trigger] entries[i]).0 == name
}

/// The value stored under `name`, where there is one.
pub open spec fn value_of<V>(entries: Seq<(Seq<char>, V)>, name: Seq<char>) -> V {
    entries[index_of_name(entries, name)].1
}

/// The entries after `value` is stored under `name`: in place of the value
/// that was there, or else as a new last entry.
pub open spec fn put<V>(entries: Seq<(Seq<char>, V)>, name: Seq<char>, value: V) -> Seq<
    (Seq<char>, V),
> {
    if has_name(entries, name) {
        entries.update(index_of_name(entries, name), (name, value))
    } else {
        entries.push((name, value))
    }
}

/// The entries without the one named `name`.
pub open spec fn removed<V>(entries: Seq<(Seq<char>, V)>, name: Seq<char>) -> Seq<
    (Seq<char>, V),
> {
    if has_name(entries, name) {
        entries.remove(index_of_name(entries, name))
    } else {
        entries
    }
}

/// The entries of a vector of pairs, each name as its characters.
pub open spec fn pair_views<V>(pairs: Seq<(String, V)>) -> Seq<(Seq<char>, V)> {
    Seq::new(pairs.len(), |i: int| (pairs[i].0@, pairs[i].1))
}

/// With distinct names, the entry found under a name is the only one.
pub proof fn lemma_index_of_name<V>(entries: Seq<(Seq<char>, V)>, name: Seq<char>, i: int)
    requires
        distinct_names(entries),
        0 <= i < entries.len(),
        entries[i].0 == name,
    ensures
        has_name(entries, name),
        index_of_name(entries, name) == i,
        value_of(entries, name) == entries[i].1,
{
}

/// Storing a value keeps names distinct; the value is then the one under
/// its name, and every other name keeps what it had.
pub proof fn lemma_put<V>(entries: Seq<(Seq<char>, V)>, name: Seq<char>, value: V)
    requires
        distinct_names(entries),
    ensures
        distinct_names(put(entries, name, value)),
        has_name(put(entries, name, value), name),
        value_of(put(entries, name, value), name) == value,
        forall|other: Seq<char>|
            other != name ==> (has_name(put(entries, name, value), other) <==> has_name(
                entries,
                other,
            )),
        forall|other: Seq<char>|
            other != name && has_name(entries, other) ==> value_of(
                put(entries, name, value),
                other,
            ) == value_of(entries, other),
{
    let next = put(entries, name, value);
    let k = if has_name(entries, name) {
        index_of_name(entries, name)
    } else {
        entries.len() as int
    };
    assert(next[k] == (name, value));
    assert forall|i: int| 0 <= i < next.len() && i != k implies #[trigger] next[i]
        == entries[i] by {}
    assert forall|i: int, j: int| 0 <= i < j < next.len() implies (#[trigger] next[i]).0 != (
    #[trigger] next[j]).0 by {
        if i != k {
            assert(next[i] == entries[i]);
        }
        if j != k {
            assert(next[j] == entries[j]);
        }
    }
    lemma_index_of_name(next, name, k);
    assert forall|other: Seq<char>| other != name implies (has_name(next, other) <==> has_name(
        entries,
        other,
    )) && (has_name(entries, other) ==> value_of(next, other) == value_of(entries, other)) by {
        if has_name(entries, other) {
            let i = index_of_name(entries, other);
            assert(next[i] == entries[i]);
            lemma_index_of_name(next, other, i);
        }
        if has_name(next, other) {
            let i = index_of_name(next, other);
            assert(next[i] == entries[i]);
        }
    }
}

/// Removing a name keeps names distinct; the name is then absent, and every
/// other name keeps what it had.
pub proof fn lemma_removed<V>(entries: Seq<(Seq<char>, V)>, name: Seq<char>)
    requires
        distinct_names(entries),
    ensures
        distinct_names(removed(entries, name)),
        !has_name(removed(entries, name), name),
        forall|other: Seq<char>|
            other != name ==> (has_name(removed(entries, name), other) <==> has_name(
                entries,
                other,
            )),
        forall|other: Seq<char>|
            other != name && has_name(entries, other) ==> value_of(removed(entries, name), other)
                == value_of(entries, other),
{
    let rest = removed(entries, name);
    if has_name(entries, name) {
        let p = index_of_name(entries, name);
        assert forall|i: int| 0 <= i < rest.len() implies #[trigger] rest[i] == entries[if i < p {
            i
        } else {
            i + 1
        }] by {}
        assert forall|i: int, j: int| 0 <= i < j < rest.len() implies (#[trigger] rest[i]).0 != (
        #[trigger] rest[j]).0 by {
            let a = if i < p { i } else { i + 1 };
            let b = if j < p { j } else { j + 1 };
            assert(rest[i] == entries[a]);
            assert(rest[j] == entries[b]);
        }
        if has_name(rest, name) {
            let i = index_of_name(rest, name);
            let a = if i < p { i } else { i + 1 };
            assert(rest[i] == entries[a]);
            assert(entries[a].0 == entries[p].0);
        }
        assert forall|other: Seq<char>| other != name implies (has_name(rest, other) <==> has_name(
            entries,
            other,
        )) && (has_name(entries, other) ==> value_of(rest, other) == value_of(entries, other)) by {
            if has_name(entries, other) {
                let a = index_of_name(entries, other);
                let i = if a < p { a } else { a - 1 };
                assert(rest[i] == entries[a]);
                lemma_index_of_name(rest, other, i);
            }
            if has_name(rest, other) {
                let i = index_of_name(rest, other);
                let a = if i < p { i } else { i + 1 };
                assert(rest[i] == entries[a]);
            }
        }
    }
}

/// A map from names to values. No name occurs twice; entries stay in the
/// order in which their names were first inserted.
#[derive(Debug)]
pub struct NameMap<V> {
    entries: Vec<(String, V)>,
}

impl<V> View for NameMap<V> {
    type V = Seq<(Seq<char>, V)>;

    closed spec fn view(&self) -> Seq<(Seq<char>, V)> {
        pair_views(self.entries@)
    }
}

impl<V> NameMap<V> {
    #[verifier::type_invariant]
    spec fn inv(self) -> bool {
        distinct_names(pair_views(self.entries@))
    }

    /// A map without entries.
    pub fn new() -> (m: NameMap<V>)
        ensures
            m@ == Seq::<(Seq<char>, V)>::empty(),
    {
        let m = NameMap { entries: Vec::new() };
        assert(m@ =~= Seq::<(Seq<char>, V)>::empty());
        m
    }

    /// The number of entries.
    pub fn len(&self) -> (n: usize)
        ensures
            n == self@.len(),
            distinct_names(self@),
    {
        proof {
            use_type_invariant(self);
        }
        self.entries.len()
    }

    /// Whether the map has no entry.
    pub fn is_empty(&self) -> (r: bool)
        ensures
            r == (self@.len() == 0),
    {
        self.entries.len() == 0
    }

    fn find(&self, name: &str) -> (r: Option<usize>)
        ensures
            distinct_names(self@),
            match r {
                Some(i) => i < self@.len() && self@[i as int].0 == name@ && has_name(self@, name@)
                    && index_of_name(self@, name@) == i,
                None => !has_name(self@, name@),
            },
    {
        proof {
            use_type_invariant(self);
        }
        let mut i: usize = 0;
        while i < self.entries.len()
            invariant
                i <= self.entries.len(),
                distinct_names(self@),
                forall|j: int| 0 <= j < i ==> (#[trigger] self@[j]).0 != name@,
            decreases self.entries.len() - i,
        {
            if str_eq(self.entries[i].0.as_str(), name) {
                proof {
                    lemma_index_of_name(self@, name@, i as int);
                }
                return Some(i);
            }
            i += 1;
        }
        None
    }

    /// Whether a value is stored under `name`.
    pub fn contains_key(&self, name: &str) -> (r: bool)
        ensures
            r == has_name(self@, name@),
    {
        self.find(name).is_some()
    }

    /// The value stored under `name`.
    pub fn get(&self, name: &str) -> (r: Option<&V>)
        ensures
            r is Some <==> has_name(self@, name@),
            r is Some ==> *r->0 == value_of(self@, name@),
    {
        match self.find(name) {
            Some(i) => Some(&self.entries[i].1),
            None => None,
        }
    }

    /// The entry at position `i`, and nothing from the length on.
    pub fn entry(&self, i: usize) -> (r: Option<(&String, &V)>)
        ensures
            match r {
                Some((name, value)) => i < self@.len() && (name@, *value) == self@[i as int],
                None => i >= self@.len(),
            },
    {
        if i < self.entries.len() {
            let pair = &self.entries[i];
            Some((&pair.0, &pair.1))
        } else {
            None
        }
    }

    /// Stores `value` under `name`: in place of the value that was there, or
    /// else as a new last entry.
    pub fn insert(&mut self, name: String, value: V)
        ensures
            final(self)@ == put(old(self)@, name@, value),
            distinct_names(final(self)@),
            has_name(final(self)@, name@),
            value_of(final(self)@, name@) == value,
    {
        let ghost before = self@;
        let found = self.find(name.as_str());
        proof {
            lemma_put(before, name@, value);
        }
        let mut entries: Vec<(String, V)> = Vec::new();
        std::mem::swap(&mut entries, &mut self.entries);
        match found {
            Some(i) => {
                entries.set(i, (name, value));
                assert(pair_views(entries@) =~= before.update(i as int, (name@, value)));
            },
            None => {
                entries.push((name, value));
                assert(pair_views(entries@) =~= before.push((name@, value)));
            },
        }
        self.entries = entries;
    }

    /// Removes the entry named `name` and returns its value.
    pub fn remove(&mut self, name: &str) -> (r: Option<V>)
        ensures
            final(self)@ == removed(old(self)@, name@),
            distinct_names(final(self)@),
            !has_name(final(self)@, name@),
            r is Some <==> has_name(old(self)@, name@),
            r is Some ==> r->0 == value_of(old(self)@, name@),
    {
        let ghost before = self@;
        let found = self.find(name);
        proof {
            lemma_removed(before, name@);
        }
        match found {
            Some(i) => {
                let mut entries: Vec<(String, V)> = Vec::new();
                std::mem::swap(&mut entries, &mut self.entries);
                let pair = entries.remove(i);
                assert(pair_views(entries@) =~= before.remove(i as int));
                self.entries = entries;
                Some(pair.1)
            },
            None => None,
        }
    }

    /// The entries, in order.
    pub fn into_entries(self) -> (pairs: Vec<(String, V)>)
        ensures
            pair_views(pairs@) == self@,
            distinct_names(self@),
    {
        proof {
            use_type_invariant(&self);
        }
        self.entries
    }
}

} // verus!
