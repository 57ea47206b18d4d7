//! A small map from names to values.

use crate::json::{
    distinct_names, law_set_then_get, lemma_position, lemma_position_is, lemma_with_entry_distinct,
    lookup, position, with_entry,
};
use crate::text::same_text;
use vstd::prelude::*;

verus! {

/// The map that a list of named values stands for.
pub open spec fn as_map<V>(entries: Seq<(Seq<char>, V)>) -> Map<Seq<char>, V> {
    Map::new(
        |name: Seq<char>| lookup(entries, name) is Some,
        |name: Seq<char>| lookup(entries, name)->Some_0,
    )
}

/// A map from names to values.
pub struct Table<V> {
    entries: Vec<(String, V)>,
}

impl<V> View for Table<V> {
    type V = Map<Seq<char>, V>;

    closed spec fn view(&self) -> Map<Seq<char>, V> {
        as_map(self.listed())
    }
}

proof fn lemma_dom<V>(entries: Seq<(Seq<char>, V)>)
    requires
        distinct_names(entries),
    ensures
        as_map(entries).dom().finite(),
        as_map(entries).dom().len() == entries.len(),
{
    let names = Seq::new(entries.len(), |i: int| entries[i].0);
    assert(names.no_duplicates()) by {
        assert forall|i: int, j: int|
            0 <= i < names.len() && 0 <= j < names.len() && i != j implies names[i] != names[j] by {
            if i < j {
                assert(entries[i].0 != entries[j].0);
            } else {
                assert(entries[j].0 != entries[i].0);
            }
        }
    }
    names.unique_seq_to_set();
    assert(names.to_set() =~= as_map(entries).dom()) by {
        assert forall|name: Seq<char>| #[trigger] names.to_set().contains(name) implies as_map(
            entries,
        ).dom().contains(name) by {
            let i = choose|i: int| 0 <= i < names.len() && names[i] == name;
            lemma_position(entries, name);
            if position(entries, name) == entries.len() {
                assert(entries[i].0 != name);
            }
        }
        assert forall|name: Seq<char>| #[trigger] as_map(entries).dom().contains(name) implies names
            .to_set().contains(name) by {
            lemma_position(entries, name);
            assert(names[position(entries, name)] == name);
        }
    }
    vstd::seq_lib::seq_to_set_is_finite(names);
}

proof fn lemma_insert<V>(entries: Seq<(Seq<char>, V)>, name: Seq<char>, value: V)
    ensures
        as_map(with_entry(entries, name, value)) == as_map(entries).insert(name, value),
{
    let after = with_entry(entries, name, value);
    assert forall|other: Seq<char>| lookup(after, other) == (if other == name {
        Some(value)
    } else {
        lookup(entries, other)
    }) by {
        law_set_then_get(entries, name, value, other);
    }
    assert(as_map(after) =~= as_map(entries).insert(name, value));
}

proof fn lemma_remove<V>(entries: Seq<(Seq<char>, V)>, name: Seq<char>)
    requires
        distinct_names(entries),
        position(entries, name) < entries.len(),
    ensures
        distinct_names(entries.remove(position(entries, name))),
        as_map(entries.remove(position(entries, name))) == as_map(entries).remove(name),
{
    lemma_position(entries, name);
    let p = position(entries, name);
    let after = entries.remove(p);
    assert forall|i: int, j: int| 0 <= i < j < after.len() implies (#[trigger] after[i]).0 != (
    #[trigger] after[j]).0 by {
        let si = if i >= p {
            i + 1
        } else {
            i
        };
        let sj = if j >= p {
            j + 1
        } else {
            j
        };
        assert(entries[si].0 != entries[sj].0);
    }
    assert forall|other: Seq<char>| lookup(after, other) == (if other == name {
        None
    } else {
        lookup(entries, other)
    }) by {
        lemma_position(entries, other);
        let q = position(entries, other);
        if other == name {
            assert forall|i: int| 0 <= i < after.len() implies (#[trigger] after[i]).0 != name by {
                let si = if i >= p {
                    i + 1
                } else {
                    i
                };
                if si < p {
                    assert(entries[si].0 != entries[p].0);
                } else {
                    assert(entries[p].0 != entries[si].0);
                }
            }
            lemma_position_is(after, name, after.len() as int);
        } else {
            let at = if q > p {
                q - 1
            } else {
                q
            };
            assert forall|i: int| 0 <= i < at implies (#[trigger] after[i]).0 != other by {
                let si = if i >= p {
                    i + 1
                } else {
                    i
                };
                assert(entries[si].0 != other);
            }
            lemma_position_is(after, other, at);
        }
    }
    assert(as_map(after) =~= as_map(entries).remove(name));
}

impl<V> Table<V> {
    /// The names and values, in the order in which they are kept.
    pub closed spec fn listed(&self) -> Seq<(Seq<char>, V)> {
        Seq::new(self.entries@.len(), |i: int| (self.entries@[i].0@, self.entries@[i].1))
    }

    #[verifier::type_invariant]
    closed spec fn names_are_distinct(self) -> bool {
        distinct_names(self.listed())
    }

    /// The name that is kept at `i`.
    pub closed spec fn name_of(&self, i: int) -> Seq<char> {
        self.listed()[i].0
    }
}

impl<V: Copy> Table<V> {
    /// The empty map.
    pub fn new() -> (t: Table<V>)
        ensures
            t@ == Map::<Seq<char>, V>::empty(),
    {
        let t = Table { entries: Vec::new() };
        assert(t@ =~= Map::<Seq<char>, V>::empty());
        t
    }

    /// The number of names.
    pub fn len(&self) -> (n: usize)
        ensures
            self@.dom().finite(),
            n == self@.dom().len(),
    {
        proof {
            use_type_invariant(self);
            lemma_dom(self.listed());
        }
        self.entries.len()
    }

    fn find(&self, name: &str) -> (at: usize)
        ensures
            at == position(self.listed(), name@),
            at <= self.entries@.len(),
    {
        let mut i: usize = 0;
        while i < self.entries.len()
            invariant
                i <= self.entries@.len(),
                self.listed().len() == self.entries@.len(),
                forall|k: int| 0 <= k < i ==> (#[trigger] self.listed()[k]).0 != name@,
            decreases self.entries@.len() - i,
        {
            if same_text(self.entries[i].0.as_str(), name) {
                proof {
                    lemma_position_is(self.listed(), name@, i as int);
                }
                return i;
            }
            i += 1;
        }
        proof {
            lemma_position_is(self.listed(), name@, i as int);
        }
        i
    }

    /// The value under a name.
    pub fn get(&self, name: &str) -> (value: Option<V>)
        ensures
            match value {
                Some(v) => self@.dom().contains(name@) && self@[name@] == v,
                None => !self@.dom().contains(name@),
            },
    {
        let at: usize = self.find(name);
        proof {
            lemma_position(self.listed(), name@);
        }
        if at < self.entries.len() {
            Some(self.entries[at].1)
        } else {
            None
        }
    }

    /// Sets the value under a name.
    pub fn insert(&mut self, name: String, value: V)
        ensures
            final(self)@ == old(self)@.insert(name@, value),
    {
        let at: usize = self.find(name.as_str());
        let ghost before = self.listed();
        let ghost view = name@;
        proof {
            use_type_invariant(&*self);
            lemma_position(before, view);
            lemma_with_entry_distinct(before, view, value);
            lemma_insert(before, view, value);
        }
        let mut entries: Vec<(String, V)> = Vec::new();
        std::mem::swap(&mut entries, &mut self.entries);
        if at < entries.len() {
            entries.set(at, (name, value));
        } else {
            entries.push((name, value));
        }
        assert((Table { entries }).listed() =~= with_entry(before, view, value));
        self.entries = entries;
    }

    /// Takes a name and its value out.
    pub fn remove(&mut self, name: &str) -> (value: Option<V>)
        ensures
            match value {
                Some(v) => old(self)@.dom().contains(name@) && old(self)@[name@] == v,
                None => !old(self)@.dom().contains(name@),
            },
            final(self)@ == old(self)@.remove(name@),
    {
        let at: usize = self.find(name);
        let ghost before = self.listed();
        proof {
            use_type_invariant(&*self);
            lemma_position(before, name@);
        }
        if at < self.entries.len() {
            proof {
                lemma_remove(before, name@);
            }
            let mut entries: Vec<(String, V)> = Vec::new();
            std::mem::swap(&mut entries, &mut self.entries);
            let (_, value) = entries.remove(at);
            assert((Table { entries }).listed() =~= before.remove(at as int));
            self.entries = entries;
            Some(value)
        } else {
            assert(self@ =~= self@.remove(name@));
            None
        }
    }

    /// The values, in the order in which they are kept.
    pub fn values(&self) -> (values: Vec<V>)
        ensures
            values@.len() == self@.dom().len(),
            forall|i: int, j: int|
                0 <= i < j < values@.len() ==> #[trigger] self.name_of(i) != #[trigger] self.name_of(j),
            forall|i: int| 0 <= i < values@.len() ==> self@.dom().contains(self.name_of(i)),
            forall|i: int| 0 <= i < values@.len() ==> self@[#[trigger] self.name_of(i)] == values@[i],
            forall|name: Seq<char>| #[trigger]
                self@.dom().contains(name) ==> exists|i: int|
                    0 <= i < values@.len() && #[trigger] self.name_of(i) == name,
    {
        let mut values: Vec<V> = Vec::new();
        let mut i: usize = 0;
        while i < self.entries.len()
            invariant
                i <= self.entries@.len(),
                values@.len() == i,
                forall|k: int| 0 <= k < i ==> values@[k] == self.entries@[k].1,
            decreases self.entries@.len() - i,
        {
            values.push(self.entries[i].1);
            i += 1;
        }
        proof {
            use_type_invariant(self);
            let entries = self.listed();
            lemma_dom(entries);
            assert forall|i: int, j: int| 0 <= i < j < values@.len() implies #[trigger] self.name_of(i)
                != #[trigger] self.name_of(j) by {
                assert(entries[i].0 != entries[j].0);
            }
            assert forall|k: int| 0 <= k < values@.len() implies self@.dom().contains(
                self.name_of(k),
            ) && self@[#[trigger] self.name_of(k)] == values@[k] by {
                let name = entries[k].0;
                lemma_position(entries, name);
                let p = position(entries, name);
                if p < k {
                    assert(entries[p].0 != entries[k].0);
                }
                if k < p {
                    assert(entries[k].0 != name);
                }
            }
            assert forall|name: Seq<char>| #[trigger] self@.dom().contains(name) implies exists|k: int|
                0 <= k < values@.len() && #[trigger] self.name_of(k) == name by {
                lemma_position(entries, name);
                let p = position(entries, name);
                assert(self.name_of(p) == name);
            }
        }
        values
    }
}

} // verus!
