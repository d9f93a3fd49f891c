//! Trusted boundary around the concurrent entry store.
//!
//! The coordinator keeps its evictable entries in a `dashmap::DashMap`.
//! Verified code sees the store only through the `evicon_entries` view and
//! the wrappers below; everything the rest of the crate proves about busts
//! and evictions rests on these contracts.

use vstd::prelude::*;
use crate::cache_types::CacheEvicon;

verus! {

#[verifier::external_type_specification]
#[verifier::external_body]
#[verifier::reject_recursive_types(K)]
#[verifier::reject_recursive_types(V)]
#[verifier::reject_recursive_types(S)]
pub struct ExDashMap<K, V, S>(dashmap::DashMap<K, V, S>);

/// What the store holds: cache entries keyed by cache id.
pub uninterp spec fn evicon_entries(m: dashmap::DashMap<String, CacheEvicon>) -> Map<
    Seq<char>,
    CacheEvicon,
>;

/// The empty store contents.
pub open spec fn empty_entries() -> Map<Seq<char>, CacheEvicon> {
    Map::empty()
}

/// Relies on dashmap::DashMap::new: the new map is empty.
#[verifier::external_body]
pub(crate) fn store_new() -> (r: dashmap::DashMap<String, CacheEvicon>)
    ensures
        evicon_entries(r) == empty_entries(),
{
    dashmap::DashMap::new()
}

/// Relies on dashmap::DashMap::insert: maps the key to the value, replacing
/// any earlier entry under that key.
#[verifier::external_body]
pub(crate) fn store_insert(m: &mut dashmap::DashMap<String, CacheEvicon>, k: String, v: CacheEvicon)
    ensures
        evicon_entries(*final(m)) =~= evicon_entries(*old(m)).insert(k@, v),
{
    m.insert(k, v);
}

/// Relies on dashmap::DashMap::remove: takes the entry under the key out of
/// the map and returns its value, `None` when the key was absent.
#[verifier::external_body]
pub(crate) fn store_remove(m: &mut dashmap::DashMap<String, CacheEvicon>, k: &String) -> (r: Option<
    CacheEvicon,
>)
    ensures
        evicon_entries(*final(m)) =~= evicon_entries(*old(m)).remove(k@),
        r is Some <==> evicon_entries(*old(m)).dom().contains(k@),
        r is Some ==> r->Some_0 == evicon_entries(*old(m))[k@],
{
    match m.remove(k) {
        Some(pair) => Some(pair.1),
        None => None,
    }
}

/// Relies on dashmap::DashMap::get: returns the value under the key, `None`
/// when the key is absent.
#[verifier::external_body]
pub(crate) fn store_get(m: &dashmap::DashMap<String, CacheEvicon>, k: &String) -> (r: Option<
    CacheEvicon,
>)
    ensures
        r is Some <==> evicon_entries(*m).dom().contains(k@),
        r is Some ==> r->Some_0 == evicon_entries(*m)[k@],
{
    match m.get(k) {
        Some(entry) => Some(entry.value().clone()),
        None => None,
    }
}

/// Relies on dashmap::DashMap::iter: yields every entry of the map exactly
/// once, in no promised order.
#[verifier::external_body]
pub(crate) fn store_pairs(m: &dashmap::DashMap<String, CacheEvicon>) -> (r: Vec<
    (String, CacheEvicon),
>)
    ensures
        forall|i: int|
            0 <= i < r@.len() ==> {
                &&& evicon_entries(*m).dom().contains(#[trigger] r@[i].0@)
                &&& evicon_entries(*m)[r@[i].0@] == r@[i].1
            },
        forall|i: int, j: int| 0 <= i < j < r@.len() ==> r@[i].0@ != r@[j].0@,
        forall|k: Seq<char>|
            evicon_entries(*m).dom().contains(k) ==> exists|i: int|
                0 <= i < r@.len() && #[trigger] r@[i].0@ == k,
{
    m.iter().map(|entry| (entry.key().clone(), entry.value().clone())).collect()
}

} // verus!
