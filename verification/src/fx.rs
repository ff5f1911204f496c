//! The hash maps of `rustc_data_structures::fx`, as the library uses them:
//! one that counts file paths, and one that finds a coordinate's entry in
//! the dependency graph.
//!
//! What such a map holds is named, not computed: the contracts below say
//! what creating a map, inserting into it and looking a key up do to that
//! content, as the documentation of `std::collections::HashMap` gives it.
//! They are believed, not proved.

use vstd::prelude::*;
use rustc_data_structures::fx::{FxHashMap, FxHasher};

verus! {

/// The hasher of `FxHashMap`. Nothing is said of it.
#[verifier::external_type_specification]
#[verifier::external_body]
pub struct ExFxHasher(FxHasher);

/// The hasher builder of `FxHashMap`. Nothing is said of it.
#[verifier::external_type_specification]
#[verifier::external_body]
#[verifier::reject_recursive_types(H)]
pub struct ExBuildHasherDefault<H>(core::hash::BuildHasherDefault<H>);

/// A map from file paths to how often each was counted.
pub type PathCounts = FxHashMap<String, usize>;

/// What a map from paths to counts holds.
pub uninterp spec fn tally(counts: PathCounts) -> Map<Seq<char>, usize>;

/// The tally of a map that holds nothing.
pub open spec fn nothing_counted() -> Map<Seq<char>, usize> {
    Map::empty()
}

/// How often `tally` has counted `key`: zero if the map does not hold it.
pub open spec fn counted(counts: PathCounts, key: Seq<char>) -> nat {
    if tally(counts).contains_key(key) {
        tally(counts)[key] as nat
    } else {
        0
    }
}

/// `FxHashMap::default`: a map that holds nothing.
#[verifier::external_body]
pub(crate) fn new_tally() -> (r: PathCounts)
    ensures
        tally(r) == nothing_counted(),
{
    FxHashMap::default()
}

/// `HashMap::insert`: the map holds `count` for `key`, whatever it held
/// for it before; no other key is touched.
#[verifier::external_body]
pub(crate) fn set_count(counts: &mut PathCounts, key: &String, count: usize)
    ensures
        tally(*final(counts)) == tally(*old(counts)).insert(key@, count),
{
    counts.insert(key.clone(), count);
}

/// `HashMap::get`: the count of `key`, if the map holds it.
#[verifier::external_body]
pub(crate) fn count_of(counts: &PathCounts, key: &String) -> (r: Option<usize>)
    ensures
        r == (if tally(*counts).contains_key(key@) {
            Some(tally(*counts)[key@])
        } else {
            None
        }),
{
    counts.get(key).copied()
}

/// A coordinate: file path, line and column.
pub type Place = (String, usize, usize);

/// A map from coordinates to positions in a list.
pub type PlaceIndex = FxHashMap<Place, usize>;

/// What a map from coordinates to positions holds.
pub uninterp spec fn positions(index: PlaceIndex) -> Map<(Seq<char>, usize, usize), usize>;

/// The positions of a map that holds nothing.
pub open spec fn no_positions() -> Map<(Seq<char>, usize, usize), usize> {
    Map::empty()
}

/// `FxHashMap::default`: a map that holds nothing.
#[verifier::external_body]
pub(crate) fn new_index() -> (r: PlaceIndex)
    ensures
        positions(r) == no_positions(),
{
    FxHashMap::default()
}

/// `HashMap::insert`: the map holds `position` for `place`, whatever it
/// held for it before; no other coordinate is touched.
#[verifier::external_body]
pub(crate) fn set_position(index: &mut PlaceIndex, place: Place, position: usize)
    ensures
        positions(*final(index)) == positions(*old(index)).insert(place@, position),
{
    index.insert(place, position);
}

/// `HashMap::get`: the position of `place`, if the map holds it.
#[verifier::external_body]
pub(crate) fn position_of(index: &PlaceIndex, place: &Place) -> (r: Option<usize>)
    ensures
        r == (if positions(*index).contains_key(place@) {
            Some(positions(*index)[place@])
        } else {
            None
        }),
{
    index.get(place).copied()
}

} // verus!
