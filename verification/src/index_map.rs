//! The ordered string maps of `indexmap`, seen through their contents.
//!
//! An `IndexMap<String, String>` is modelled as the sequence of its
//! key-value pairs in insertion order (an association list with unique keys,
//! see `assoc`). Each method the crate calls has a wrapper whose contract
//! states what `indexmap`'s documentation and source show it does to that
//! sequence.

use vstd::prelude::*;
use indexmap::IndexMap;
use crate::assoc::{assoc_get, assoc_insert, unique_keys};

verus! {

#[verifier::external_type_specification]
#[verifier::external_body]
#[verifier::reject_recursive_types(K)]
#[verifier::reject_recursive_types(V)]
#[verifier::reject_recursive_types(S)]
pub struct ExIndexMap<K, V, S>(IndexMap<K, V, S>);

/// The key-value pairs of a string map, in their order in the map.
pub uninterp spec fn string_map_entries(m: IndexMap<String, String>) -> Seq<(Seq<char>, Seq<char>)>;

/// A pair of strings seen as characters.
pub open spec fn pair_view(p: (String, String)) -> (Seq<char>, Seq<char>) {
    (p.0@, p.1@)
}

/// A vector of string pairs seen as characters.
pub open spec fn pairs_view(v: Seq<(String, String)>) -> Seq<(Seq<char>, Seq<char>)> {
    v.map_values(|p: (String, String)| pair_view(p))
}

/// `IndexMap::new`: a map without pairs.
#[verifier::external_body]
pub(crate) fn string_map_new() -> (m: IndexMap<String, String>)
    ensures
        string_map_entries(m) == Seq::<(Seq<char>, Seq<char>)>::empty(),
{
    IndexMap::new()
}

/// `IndexMap::insert`: when the key is present its value is replaced in
/// place and the old value returned; otherwise the pair is appended last
/// and `None` returned. Keys stay unique.
#[verifier::external_body]
pub(crate) fn string_map_insert(m: &mut IndexMap<String, String>, k: String, v: String) -> (r: Option<String>)
    ensures
        string_map_entries(*final(m)) == assoc_insert(string_map_entries(*old(m)), k@, v@),
        unique_keys(string_map_entries(*final(m))),
        match r {
            Some(o) => assoc_get(string_map_entries(*old(m)), k@) == Some(o@),
            None => assoc_get(string_map_entries(*old(m)), k@) is None,
        },
{
    m.insert(k, v)
}

/// `IndexMap::get`: the value stored under the key, if any.
#[verifier::external_body]
pub(crate) fn string_map_get<'a>(m: &'a IndexMap<String, String>, k: &str) -> (r: Option<&'a String>)
    ensures
        match r {
            Some(v) => assoc_get(string_map_entries(*m), k@) == Some(v@),
            None => assoc_get(string_map_entries(*m), k@) is None,
        },
{
    m.get(k)
}

/// `IndexMap::iter`, each pair cloned: the pairs of the map in order.
#[verifier::external_body]
pub(crate) fn string_map_pairs(m: &IndexMap<String, String>) -> (r: Vec<(String, String)>)
    ensures
        pairs_view(r@) == string_map_entries(*m),
{
    m.iter().map(|(k, v)| (k.clone(), v.clone())).collect()
}

/// `IndexMap::into_iter`: the pairs of the map in order, moved out.
#[verifier::external_body]
pub(crate) fn string_map_into_pairs(m: IndexMap<String, String>) -> (r: Vec<(String, String)>)
    ensures
        pairs_view(r@) == string_map_entries(m),
{
    m.into_iter().collect()
}

/// `Clone` for `IndexMap`: a map with the same pairs in the same order.
#[verifier::external_body]
pub(crate) fn string_map_clone(m: &IndexMap<String, String>) -> (r: IndexMap<String, String>)
    ensures
        string_map_entries(r) == string_map_entries(*m),
{
    m.clone()
}

} // verus!
