//! Names in insertion order: the ordered set that the configuration and the
//! collected members are indexed by, and an ordered map built on it.

use indexmap::IndexSet;
use vstd::prelude::*;

verus! {

/// `indexmap::IndexSet`, the hash set that keeps its items in insertion order.
/// Nothing inside a value of it is seen here; what it holds goes by the name
/// `name_set_items`.
#[verifier::external_type_specification]
#[verifier::external_body]
#[verifier::reject_recursive_types(T)]
#[verifier::reject_recursive_types(S)]
pub struct ExIndexSet<T, S>(indexmap::IndexSet<T, S>);

/// The names that an ordered name set holds, in the order in which they were first
/// inserted.
pub uninterp spec fn name_set_items(s: IndexSet<String>) -> Seq<Seq<char>>;

/// `IndexSet::new`: a set that holds nothing.
#[verifier::external_body]
pub(crate) fn name_set_new() -> (s: IndexSet<String>)
    ensures
        name_set_items(s) == Seq::<Seq<char>>::empty(),
{
    IndexSet::new()
}

/// `IndexSet::len`: the number of names held.
#[verifier::external_body]
pub(crate) fn name_set_len(s: &IndexSet<String>) -> (n: usize)
    ensures
        n == name_set_items(*s).len(),
{
    s.len()
}

/// `IndexSet::insert`: a name that the set holds already leaves the set as it was
/// and gives `false`; any other name goes behind the last one and gives `true`.
#[verifier::external_body]
pub(crate) fn name_set_insert(s: &mut IndexSet<String>, name: String) -> (fresh: bool)
    ensures
        fresh == !name_set_items(*old(s)).contains(name@),
        name_set_items(*final(s)) == if fresh {
            name_set_items(*old(s)).push(name@)
        } else {
            name_set_items(*old(s))
        },
{
    s.insert(name)
}

/// `IndexSet::contains`: whether the set holds the name.
#[verifier::external_body]
pub(crate) fn name_set_contains(s: &IndexSet<String>, name: &str) -> (found: bool)
    ensures
        found == name_set_items(*s).contains(name@),
{
    s.contains(name)
}

/// `IndexSet::get_index_of`: the one position at which the set holds the name, if
/// it holds it at all.
#[verifier::external_body]
pub(crate) fn name_set_get_index_of(s: &IndexSet<String>, name: &str) -> (at: Option<usize>)
    ensures
        match at {
            Some(i) => i < name_set_items(*s).len() && name_set_items(*s)[i as int] == name@
                && forall|j: int|
                0 <= j < name_set_items(*s).len() && name_set_items(*s)[j] == name@ ==> j == i,
            None => !name_set_items(*s).contains(name@),
        },
{
    s.get_index_of(name)
}

/// `IndexSet::get_index`: the name at a position, if the position is below the
/// number of names held.
#[verifier::external_body]
pub(crate) fn name_set_get_index(s: &IndexSet<String>, i: usize) -> (name: Option<&String>)
    ensures
        match name {
            Some(n) => i < name_set_items(*s).len() && n@ == name_set_items(*s)[i as int],
            None => i >= name_set_items(*s).len(),
        },
{
    s.get_index(i)
}

/// A position of a name in a sequence of names: the only one where the sequence
/// holds no name twice.
pub open spec fn position_of(keys: Seq<Seq<char>>, key: Seq<char>) -> Option<int> {
    if keys.contains(key) {
        Some(keys.index_of(key))
    } else {
        None
    }
}

/// A map from names to values that keeps the order in which the names were first
/// inserted. The names stand in an ordered set, the values beside it, each at the
/// position of its name.
pub struct OrderedMap<V> {
    keys: IndexSet<String>,
    values: Vec<V>,
}

impl<V> OrderedMap<V> {
    /// The names in insertion order.
    pub closed spec fn keys(&self) -> Seq<Seq<char>> {
        name_set_items(self.keys)
    }

    /// The values, each at the position of its name.
    pub closed spec fn values(&self) -> Seq<V> {
        self.values@
    }

    /// Each name stands once and has its value.
    pub open spec fn wf(&self) -> bool {
        &&& self.keys().len() == self.values().len()
        &&& self.keys().no_duplicates()
    }

    /// The position of a name that has a value. In a well-formed map every name has
    /// one.
    pub open spec fn spec_index_of(&self, key: Seq<char>) -> Option<int> {
        match position_of(self.keys(), key) {
            Some(i) => if i < self.values().len() {
                Some(i)
            } else {
                None
            },
            None => None,
        }
    }

    /// The value filed under a name.
    pub open spec fn spec_get(&self, key: Seq<char>) -> Option<V> {
        match self.spec_index_of(key) {
            Some(i) => Some(self.values()[i]),
            None => None,
        }
    }

    /// The number of names that have a value.
    pub open spec fn spec_len(&self) -> nat {
        if self.keys().len() <= self.values().len() {
            self.keys().len()
        } else {
            self.values().len()
        }
    }

    /// An empty map.
    pub fn new() -> (m: Self)
        ensures
            m.wf(),
            m.keys() == Seq::<Seq<char>>::empty(),
            m.values() == Seq::<V>::empty(),
    {
        OrderedMap { keys: name_set_new(), values: Vec::new() }
    }

    /// The number of entries.
    pub fn len(&self) -> (n: usize)
        ensures
            n == self.spec_len(),
    {
        let k = name_set_len(&self.keys);
        if k <= self.values.len() {
            k
        } else {
            self.values.len()
        }
    }

    /// The position of a name among the entries.
    pub fn get_index_of(&self, key: &str) -> (at: Option<usize>)
        ensures
            match at {
                Some(i) => self.spec_index_of(key@) == Some(i as int),
                None => self.spec_index_of(key@) is None,
            },
    {
        match name_set_get_index_of(&self.keys, key) {
            Some(i) => if i < self.values.len() {
                Some(i)
            } else {
                None
            },
            None => None,
        }
    }

    /// Whether a name has a value.
    pub fn contains_key(&self, key: &str) -> (found: bool)
        ensures
            found == self.spec_index_of(key@) is Some,
    {
        self.get_index_of(key).is_some()
    }

    /// The value filed under a name.
    pub fn get(&self, key: &str) -> (value: Option<&V>)
        ensures
            match value {
                Some(v) => self.spec_get(key@) == Some(*v),
                None => self.spec_get(key@) is None,
            },
    {
        match self.get_index_of(key) {
            Some(i) => Some(&self.values[i]),
            None => None,
        }
    }

    /// The name at a position below `len`.
    pub fn key_at(&self, i: usize) -> (key: &String)
        requires
            i < self.spec_len(),
        ensures
            key@ == self.keys()[i as int],
    {
        name_set_get_index(&self.keys, i).unwrap()
    }

    /// The value at a position below `len`.
    pub fn value_at(&self, i: usize) -> (value: &V)
        requires
            i < self.spec_len(),
        ensures
            *value == self.values()[i as int],
    {
        &self.values[i]
    }

    /// Files a value under a name. A name that the map holds keeps its place and gets
    /// the new value; any other name goes behind the last one.
    pub fn insert(&mut self, key: String, value: V)
        requires
            old(self).wf(),
        ensures
            final(self).wf(),
            match position_of(old(self).keys(), key@) {
                Some(i) => final(self).keys() == old(self).keys() && final(self).values() == old(
                    self,
                ).values().update(i, value),
                None => final(self).keys() == old(self).keys().push(key@) && final(self).values()
                    == old(self).values().push(value),
            },
    {
        match name_set_get_index_of(&self.keys, key.as_str()) {
            Some(i) => {
                self.values.set(i, value);
            },
            None => {
                name_set_insert(&mut self.keys, key);
                self.values.push(value);
                proof {
                    lemma_push_keeps_distinct(old(self).keys(), key@);
                }
            },
        }
    }
}

impl<T> OrderedMap<Vec<T>> {
    /// Puts a value behind those filed under a name; a name that the map does not hold
    /// yet goes behind the last one, with the value as its only one.
    pub fn push_to(&mut self, key: &String, value: T)
        requires
            old(self).wf(),
        ensures
            final(self).wf(),
            match position_of(old(self).keys(), key@) {
                Some(i) => final(self).keys() == old(self).keys() && final(self).values().len()
                    == old(self).values().len() && final(self).values()[i]@ == old(
                    self,
                ).values()[i]@.push(value) && forall|j: int|
                    0 <= j < old(self).values().len() && j != i ==> final(self).values()[j] == old(
                        self,
                    ).values()[j],
                None => final(self).keys() == old(self).keys().push(key@) && final(self).values().len()
                    == old(self).values().len() + 1 && final(self).values().last()@ == seq![value]
                    && forall|j: int|
                    0 <= j < old(self).values().len() ==> final(self).values()[j] == old(
                        self,
                    ).values()[j],
            },
    {
        match name_set_get_index_of(&self.keys, key.as_str()) {
            Some(i) => {
                self.values[i].push(value);
            },
            None => {
                name_set_insert(&mut self.keys, key.clone());
                let mut group: Vec<T> = Vec::new();
                group.push(value);
                self.values.push(group);
                proof {
                    lemma_push_keeps_distinct(old(self).keys(), key@);
                }
            },
        }
    }
}

/// A sequence without repeats stays so when a value that it does not hold goes
/// behind it.
pub proof fn lemma_push_keeps_distinct(keys: Seq<Seq<char>>, key: Seq<char>)
    requires
        keys.no_duplicates(),
        !keys.contains(key),
    ensures
        keys.push(key).no_duplicates(),
{
    let p = keys.push(key);
    assert forall|i: int, j: int| 0 <= i < p.len() && 0 <= j < p.len() && i != j implies p[i]
        != p[j] by {
        if i < keys.len() {
            assert(keys.contains(p[i]));
        }
        if j < keys.len() {
            assert(keys.contains(p[j]));
        }
    }
}

} // verus!
