use vstd::prelude::*;
use rustc_hash::{FxBuildHasher, FxHashMap};

verus! {

/// The hasher of the tables: nothing is said of it.
#[verifier::external_type_specification]
#[verifier::external_body]
pub struct ExFxBuildHasher(FxBuildHasher);

/// A table from names to positions, kept in a hash map with the Fx hasher.
///
/// What the map holds is named by [`name_index_entries`], and the functions
/// below say how each operation of the hash map changes it.
#[derive(Debug)]
pub struct NameIndex {
    pub map: FxHashMap<String, usize>,
}

/// The positions that a hash map holds, by name.
pub uninterp spec fn name_index_entries(map: FxHashMap<String, usize>) -> Map<Seq<char>, usize>;

/// The table that holds nothing.
pub open spec fn no_entries() -> Map<Seq<char>, usize> {
    Map::empty()
}

impl NameIndex {
    /// `FxHashMap::default`: a map that holds nothing.
    #[verifier::external_body]
    pub(crate) fn new() -> (r: NameIndex)
        ensures
            name_index_entries(r.map) == no_entries(),
    {
        NameIndex { map: FxHashMap::default() }
    }

    /// `HashMap::insert`: afterwards `name` stands for `position`, whether or
    /// not it stood for something before; no other name is touched.
    #[verifier::external_body]
    pub(crate) fn insert(&mut self, name: &str, position: usize)
        ensures
            name_index_entries(final(self).map) == name_index_entries(old(self).map).insert(
                name@,
                position,
            ),
    {
        self.map.insert(name.to_string(), position);
    }

    /// `HashMap::get`: the position that `name` stands for, if it stands for
    /// one.
    #[verifier::external_body]
    pub(crate) fn get(&self, name: &str) -> (r: Option<usize>)
        ensures
            r == (if name_index_entries(self.map).contains_key(name@) {
                Some(name_index_entries(self.map)[name@])
            } else {
                None
            }),
    {
        self.map.get(name).copied()
    }

    /// `HashMap::clear`: afterwards the map holds nothing.
    #[verifier::external_body]
    pub(crate) fn clear(&mut self)
        ensures
            name_index_entries(final(self).map) == no_entries(),
    {
        self.map.clear();
    }
}

} // verus!
