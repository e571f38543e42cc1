//! The in-memory index: a concurrent map from key to value, kept in a
//! `dashmap::DashMap` and described by the map of views that it holds.
use dashmap::DashMap;
use vstd::prelude::*;

verus! {

#[verifier::external_type_specification]
#[verifier::external_body]
#[verifier::reject_recursive_types(K)]
#[verifier::reject_recursive_types(V)]
#[verifier::reject_recursive_types(S)]
pub struct ExDashMap<K, V, S>(DashMap<K, V, S>);

/// The entries that a map holds, keyed and valued by the views of its strings.
pub uninterp spec fn index_of(m: DashMap<String, String>) -> Map<Seq<char>, Seq<char>>;

/// Relies on `dashmap::DashMap::new`: a fresh map holds no entry.
#[verifier::external_body]
pub(crate) fn index_new() -> (r: DashMap<String, String>)
    ensures
        index_of(r).dom().is_empty(),
{
    DashMap::new()
}

/// Relies on `dashmap::DashMap::insert`: the key is bound to the value,
/// replacing an earlier binding, and no other entry changes.
#[verifier::external_body]
pub(crate) fn index_insert(m: &mut DashMap<String, String>, key: String, value: String)
    ensures
        index_of(*final(m)) == index_of(*old(m)).insert(key@, value@),
{
    m.insert(key, value);
}

/// Relies on `dashmap::DashMap::remove`: the entry of the key, if any, leaves
/// the map and its value is handed back; no other entry changes.
#[verifier::external_body]
pub(crate) fn index_remove(m: &mut DashMap<String, String>, key: &String) -> (r: Option<String>)
    ensures
        index_of(*final(m)) == index_of(*old(m)).remove(key@),
        index_of(*old(m)).contains_key(key@) <==> r is Some,
        r is Some ==> r->Some_0@ == index_of(*old(m))[key@],
{
    m.remove(key).map(|(_, v)| v)
}

/// Relies on `dashmap::DashMap::get`: a copy of the value bound to the key,
/// if any.
#[verifier::external_body]
pub(crate) fn index_get(m: &DashMap<String, String>, key: &String) -> (r: Option<String>)
    ensures
        index_of(*m).contains_key(key@) <==> r is Some,
        r is Some ==> r->Some_0@ == index_of(*m)[key@],
{
    m.get(key).map(|e| e.value().clone())
}

} // verus!
