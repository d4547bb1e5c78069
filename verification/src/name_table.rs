//! A table from names to numbers, kept in a hash map with the Fx hasher.

use vstd::prelude::*;
use vstd::string::StringExecFns;
use std::collections::HashMap;
use rustc_hash::FxBuildHasher;

verus! {

/// The hasher factory of `rustc_hash`, carried through as an opaque value.
#[verifier::external_type_specification]
#[verifier::external_body]
pub struct ExFxBuildHasher(FxBuildHasher);

/// What a table holds: the number stored under each name.
pub uninterp spec fn table_of(table: HashMap<String, usize, FxBuildHasher>) -> Map<Seq<char>, usize>;

/// The table that holds nothing.
pub open spec fn empty_table() -> Map<Seq<char>, usize> {
    Map::empty()
}

/// `FxHashMap::default`: a map that holds nothing.
#[verifier::external_body]
pub(crate) fn table_new() -> (fresh: HashMap<String, usize, FxBuildHasher>)
    ensures
        table_of(fresh) == empty_table(),
{
    HashMap::default()
}

/// `HashMap::get`: the number stored under `name`, if there is one. The map
/// compares its keys as strings, so a name is found by its text.
#[verifier::external_body]
pub(crate) fn table_get<'a>(
    table: &'a HashMap<String, usize, FxBuildHasher>,
    name: &str,
) -> (found: Option<&'a usize>)
    ensures
        found is Some == table_of(*table).contains_key(name@),
        found matches Some(number) ==> *number == table_of(*table)[name@],
{
    table.get(name)
}

/// `HashMap::insert`: stores `number` under `name`, in place of what was
/// stored under it before, and returns what was.
#[verifier::external_body]
pub(crate) fn table_insert(
    table: &mut HashMap<String, usize, FxBuildHasher>,
    name: String,
    number: usize,
) -> (before: Option<usize>)
    ensures
        table_of(*final(table)) == table_of(*old(table)).insert(name@, number),
        before == (if table_of(*old(table)).contains_key(name@) {
            Some(table_of(*old(table))[name@])
        } else {
            None
        }),
{
    table.insert(name, number)
}

/// A map from names to values that remembers the order in which the names
/// came. Names are found through a hash table.
pub struct NameMap<T> {
    ids: HashMap<String, usize, FxBuildHasher>,
    names: Vec<String>,
    values: Vec<T>,
}

impl<T> NameMap<T> {
    /// Whether the map is in order: the table knows each name's place.
    pub closed spec fn wf(&self) -> bool {
        &&& self.names.len() == self.values.len()
        &&& forall|name: Seq<char>| #[trigger]
            table_of(self.ids).contains_key(name) ==> table_of(self.ids)[name] < self.names.len()
                && self.names[table_of(self.ids)[name] as int]@ == name
        &&& forall|i: int|
            0 <= i < self.names.len() ==> table_of(self.ids).contains_key(
                #[trigger] self.names[i]@,
            ) && table_of(self.ids)[self.names[i]@] == i
    }

    /// The names, in the order in which they came.
    pub closed spec fn names(&self) -> Seq<Seq<char>> {
        Seq::new(self.names.len() as nat, |i: int| self.names[i]@)
    }

    /// The values, each at the place of its name.
    pub closed spec fn values(&self) -> Seq<T> {
        self.values@
    }

    /// The map as a mathematical map: the value of each name.
    pub closed spec fn contents(&self) -> Map<Seq<char>, T> {
        Map::new(
            |name: Seq<char>| table_of(self.ids).contains_key(name),
            |name: Seq<char>| self.values[table_of(self.ids)[name] as int],
        )
    }

    /// No name stands twice, each has its value, and the map holds the
    /// names and nothing else.
    pub proof fn names_are_distinct(&self)
        requires
            self.wf(),
        ensures
            self.names().no_duplicates(),
            self.names().len() == self.values().len(),
            forall|name: Seq<char>|
                self.names().contains(name) <==> #[trigger] self.contents().contains_key(name),
            forall|i: int|
                0 <= i < self.names().len() ==> self.contents()[#[trigger] self.names()[i]]
                    == self.values()[i],
    {
        assert forall|name: Seq<char>| #[trigger]
            self.contents().contains_key(name) implies self.names().contains(name) by {
            assert(self.names()[table_of(self.ids)[name] as int] == name);
        }
    }

    /// A map that holds nothing.
    pub fn new() -> (map: NameMap<T>)
        ensures
            map.wf(),
            map.names() == Seq::<Seq<char>>::empty(),
            map.values() == Seq::<T>::empty(),
            map.contents() == Map::<Seq<char>, T>::empty(),
    {
        let map = NameMap { ids: table_new(), names: Vec::new(), values: Vec::new() };
        assert(map.names() =~= Seq::<Seq<char>>::empty());
        assert(map.contents() =~= Map::<Seq<char>, T>::empty());
        map
    }

    /// How many names the map holds.
    pub fn len(&self) -> (len: usize)
        requires
            self.wf(),
        ensures
            len == self.names().len(),
            len == self.values().len(),
    {
        self.names.len()
    }

    /// The place of `name`, if the map holds it.
    pub fn position(&self, name: &str) -> (place: Option<usize>)
        requires
            self.wf(),
        ensures
            match place {
                Some(i) => i < self.names().len() && i < self.values().len()
                    && self.names()[i as int] == name@ && self.contents().contains_key(name@)
                    && self.contents()[name@] == self.values()[i as int],
                None => !self.names().contains(name@) && !self.contents().contains_key(name@),
            },
    {
        match table_get(&self.ids, name) {
            Some(found) => Some(*found),
            None => {
                assert(!self.names().contains(name@)) by {
                    if self.names().contains(name@) {
                        let i = choose|i: int|
                            0 <= i < self.names().len() && self.names()[i] == name@;
                        assert(self.names[i]@ == name@);
                    }
                }
                None
            },
        }
    }

    /// The name at place `i`.
    pub fn name(&self, i: usize) -> (name: &String)
        requires
            self.wf(),
            i < self.names().len(),
        ensures
            name@ == self.names()[i as int],
            self.contents().contains_key(name@),
            self.contents()[name@] == self.values()[i as int],
    {
        &self.names[i]
    }

    /// The value at place `i`.
    pub fn value(&self, i: usize) -> (value: &T)
        requires
            self.wf(),
            i < self.values().len(),
        ensures
            *value == self.values()[i as int],
            self.contents().contains_key(self.names()[i as int]),
            self.contents()[self.names()[i as int]] == *value,
    {
        &self.values[i]
    }

    /// Adds a name that the map does not hold, with its value, at the end.
    pub fn push(&mut self, name: &str, value: T)
        requires
            old(self).wf(),
            !old(self).names().contains(name@),
        ensures
            final(self).wf(),
            final(self).names() == old(self).names().push(name@),
            final(self).values() == old(self).values().push(value),
            final(self).contents() == old(self).contents().insert(name@, value),
    {
        let id = self.names.len();
        let ghost before = self.names();
        let ghost held = self.contents();
        assert(!table_of(self.ids).contains_key(name@)) by {
            if table_of(self.ids).contains_key(name@) {
                assert(before[table_of(self.ids)[name@] as int] == name@);
            }
        }
        self.names.push(String::from_str(name));
        self.values.push(value);
        table_insert(&mut self.ids, String::from_str(name), id);
        assert(self.names() =~= before.push(name@));
        assert(self.contents() =~= held.insert(name@, value));
    }

    /// Puts `value` in the place of the value at `i`.
    pub fn replace(&mut self, i: usize, value: T)
        requires
            old(self).wf(),
            i < old(self).values().len(),
        ensures
            final(self).wf(),
            final(self).names() == old(self).names(),
            final(self).values() == old(self).values().update(i as int, value),
            final(self).contents() == old(self).contents().insert(
                old(self).names()[i as int],
                value,
            ),
    {
        let ghost before = self.names();
        let ghost held = self.contents();
        self.values.set(i, value);
        assert(self.names() =~= before);
        assert(self.contents() =~= held.insert(before[i as int], value));
    }
}

} // verus!
