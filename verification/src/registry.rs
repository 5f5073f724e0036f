//! The node registry's storage: a `dashmap::DashMap` from node identifier to
//! node context, reached through a handful of trusted operations.

use dashmap::DashMap;
use vstd::prelude::*;

use crate::model::NodeContext;

verus! {

/// `dashmap::DashMap`, a concurrent hash map. Nothing inside it is visible
/// here: what a map holds is named by `node_entries`.
#[verifier::external_type_specification]
#[verifier::external_body]
#[verifier::reject_recursive_types(K)]
#[verifier::reject_recursive_types(V)]
#[verifier::reject_recursive_types(S)]
pub struct ExDashMap<K, V, S>(DashMap<K, V, S>);

/// The entries that a node map holds: each key, by its characters, with the
/// node stored under it.
pub uninterp spec fn node_entries(map: DashMap<String, NodeContext>) -> Map<Seq<char>, NodeContext>;

/// The map without entries.
pub open spec fn no_nodes() -> Map<Seq<char>, NodeContext> {
    Map::empty()
}

/// `DashMap::new`: a map without entries.
#[verifier::external_body]
pub(crate) fn nodes_new() -> (fresh: DashMap<String, NodeContext>)
    ensures
        node_entries(fresh) == no_nodes(),
{
    DashMap::new()
}

/// `DashMap::insert`: afterwards the map holds `value` under `key`, in place
/// of whatever it held under that key, and its other entries as before.
#[verifier::external_body]
pub(crate) fn nodes_insert(
    map: &mut DashMap<String, NodeContext>,
    key: String,
    value: NodeContext,
)
    ensures
        node_entries(*final(map)) == node_entries(*old(map)).insert(key@, value),
{
    map.insert(key, value);
}

/// `DashMap::get`: a copy of the value stored under `key`, or `None` where the
/// map holds nothing under it.
#[verifier::external_body]
pub(crate) fn nodes_get(
    map: &DashMap<String, NodeContext>,
    key: &str,
) -> (found: Option<NodeContext>)
    ensures
        found is Some <==> node_entries(*map).dom().contains(key@),
        found matches Some(node) ==> node == node_entries(*map)[key@],
{
    map.get(key).map(|entry| entry.value().clone())
}

/// `DashMap::iter`: the keys of the map, each of them once, in the order in
/// which the map is walked, which is not determined.
#[verifier::external_body]
pub(crate) fn nodes_keys(map: &DashMap<String, NodeContext>) -> (keys: Vec<String>)
    ensures
        forall|i: int|
            0 <= i < keys@.len() ==> node_entries(*map).dom().contains((#[trigger] keys@[i])@),
        forall|id: Seq<char>|
            node_entries(*map).dom().contains(id) ==> exists|i: int|
                0 <= i < keys@.len() && (#[trigger] keys@[i])@ == id,
        forall|i: int, j: int|
            0 <= i < j < keys@.len() ==> (#[trigger] keys@[i])@ != (#[trigger] keys@[j])@,
{
    map.iter().map(|entry| entry.key().clone()).collect()
}

/// `DashMap::len`: the number of entries of the map.
#[verifier::external_body]
pub(crate) fn nodes_len(map: &DashMap<String, NodeContext>) -> (count: usize)
    ensures
        count == node_entries(*map).dom().len(),
{
    map.len()
}

} // verus!
