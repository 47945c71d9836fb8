//! The table from event names to the places where their listeners are kept

use fnv::{FnvHashMap, FnvHasher};
use std::hash::BuildHasherDefault;
use vstd::prelude::*;

verus! {

/// `fnv::FnvHasher`, the hasher of an `FnvHashMap`. Nothing is claimed of it.
#[verifier::external_type_specification]
#[verifier::external_body]
pub struct ExFnvHasher(FnvHasher);

/// `std::hash::BuildHasherDefault`, which makes the hashers of an `FnvHashMap`. Nothing is claimed of it.
#[verifier::external_type_specification]
#[verifier::external_body]
#[verifier::reject_recursive_types(H)]
pub struct ExBuildHasherDefault<H>(BuildHasherDefault<H>);

/// What a table holds: a place for each event name in it.
pub uninterp spec fn places(table: FnvHashMap<String, usize>) -> Map<Seq<char>, usize>;

/// `FnvHashMap::default`: a new table holds nothing.
#[verifier::external_body]
pub(crate) fn new_table() -> (table: FnvHashMap<String, usize>)
    ensures
        places(table).dom() == Set::<Seq<char>>::empty(),
{
    FnvHashMap::default()
}

/// `FnvHashMap::get`: the place of the name, if the table has the name.
#[verifier::external_body]
pub(crate) fn place_of(table: &FnvHashMap<String, usize>, name: &str) -> (place: Option<usize>)
    ensures
        place == (if places(*table).contains_key(name@) {
            Some(places(*table)[name@])
        } else {
            None
        }),
{
    table.get(name).copied()
}

/// `FnvHashMap::insert`: the name gets the place, every other name keeps its own, and the place that the
/// name had before is returned.
#[verifier::external_body]
pub(crate) fn insert_place(
    table: &mut FnvHashMap<String, usize>,
    name: String,
    place: usize,
) -> (before: Option<usize>)
    ensures
        places(*final(table)) == places(*old(table)).insert(name@, place),
        before == (if places(*old(table)).contains_key(name@) {
            Some(places(*old(table))[name@])
        } else {
            None
        }),
{
    table.insert(name, place)
}

/// `FnvHashMap::keys`: the names that the table has, each once, in no particular order.
#[verifier::external_body]
pub(crate) fn names_of(table: &FnvHashMap<String, usize>) -> (names: Vec<&String>)
    ensures
        forall|i: int, j: int| 0 <= i < j < names.len() ==> names[i]@ != names[j]@,
        forall|i: int| 0 <= i < names.len() ==> places(*table).contains_key(#[trigger] names[i]@),
        forall|name: Seq<char>| #[trigger]
            places(*table).contains_key(name) ==> exists|i: int|
                0 <= i < names.len() && #[trigger] names[i]@ == name,
{
    table.keys().collect()
}

} // verus!
