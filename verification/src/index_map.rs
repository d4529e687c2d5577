//! The ordered map of `indexmap`, from text to text, and the calls this library makes on it.
//! Nothing in this file is proved: each item states what the `indexmap` function that it
//! calls does.

use crate::ordered::{distinct_keys, put};
use vstd::prelude::*;

verus! {

#[verifier::external_type_specification]
#[verifier::external_body]
#[verifier::reject_recursive_types(K)]
#[verifier::reject_recursive_types(V)]
#[verifier::reject_recursive_types(S)]
pub struct ExIndexMap<K, V, S>(indexmap::IndexMap<K, V, S>);

/// The entries that the map holds, in the order of their insertion.
pub uninterp spec fn index_map_entries(m: indexmap::IndexMap<String, String>) -> Seq<
    (Seq<char>, Seq<char>),
>;

/// The views of pairs of strings.
pub open spec fn pair_views(pairs: Seq<(String, String)>) -> Seq<(Seq<char>, Seq<char>)> {
    Seq::new(pairs.len(), |i: int| (pairs[i].0@, pairs[i].1@))
}

/// `IndexMap::new`: a map without entries.
#[verifier::external_body]
pub(crate) fn index_map_new() -> (m: indexmap::IndexMap<String, String>)
    ensures
        index_map_entries(m) == Seq::<(Seq<char>, Seq<char>)>::empty(),
{
    indexmap::IndexMap::new()
}

/// `IndexMap::insert`: a key that the map has keeps its place and gets the new value, a new
/// key goes to the end.
#[verifier::external_body]
pub(crate) fn index_map_insert(m: &mut indexmap::IndexMap<String, String>, k: String, v: String)
    ensures
        index_map_entries(*final(m)) == put(index_map_entries(*old(m)), k@, v@),
{
    m.insert(k, v);
}

/// `IndexMap::iter`: the entries in the order of their insertion. No two of them have the
/// same key.
#[verifier::external_body]
pub(crate) fn index_map_pairs(m: &indexmap::IndexMap<String, String>) -> (r: Vec<(String, String)>)
    ensures
        pair_views(r@) == index_map_entries(*m),
        distinct_keys(pair_views(r@)),
{
    m.iter().map(|(k, v)| (k.clone(), v.clone())).collect()
}

} // verus!
