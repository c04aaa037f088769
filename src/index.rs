use vstd::prelude::*;
use dashmap::{DashMap, DashSet};

verus! {

#[verifier::external_type_specification]
#[verifier::external_body]
#[verifier::reject_recursive_types(K)]
#[verifier::reject_recursive_types(V)]
#[verifier::reject_recursive_types(S)]
pub struct ExDashMap<K, V, S>(DashMap<K, V, S>);

#[verifier::external_type_specification]
#[verifier::external_body]
#[verifier::reject_recursive_types(K)]
#[verifier::reject_recursive_types(S)]
pub struct ExDashSet<K, S>(DashSet<K, S>);

/// A concurrent map from a key to a set of names.
pub type NameIndex = DashMap<String, DashSet<String>>;

/// The contents of a concurrent map from a key to a set of names.
pub uninterp spec fn index_of(m: NameIndex) -> Map<Seq<char>, Set<Seq<char>>>;

/// The index with no entries.
pub open spec fn no_entries() -> Map<Seq<char>, Set<Seq<char>>> {
    Map::empty()
}

/// `m` with `v` added to the set under `k`, the set created when `k` is absent.
pub open spec fn index_add(m: Map<Seq<char>, Set<Seq<char>>>, k: Seq<char>, v: Seq<char>) -> Map<Seq<char>, Set<Seq<char>>> {
    if m.contains_key(k) {
        m.insert(k, m[k].insert(v))
    } else {
        m.insert(k, Set::empty().insert(v))
    }
}

/// `m` with `v` taken out of the set under `k`; the entry stays, possibly empty.
pub open spec fn index_take(m: Map<Seq<char>, Set<Seq<char>>>, k: Seq<char>, v: Seq<char>) -> Map<Seq<char>, Set<Seq<char>>> {
    if m.contains_key(k) {
        m.insert(k, m[k].remove(v))
    } else {
        m
    }
}

/// Relies on `DashMap::new`: the map starts with no entries.
#[verifier::external_body]
pub(crate) fn index_new() -> (r: NameIndex)
    ensures
        index_of(r) == no_entries(),
{
    DashMap::new()
}

/// Relies on `DashMap::entry(..).or_insert_with(DashSet::new)` and
/// `DashSet::insert`: the set under `k` is created when absent, then holds `v`.
#[verifier::external_body]
pub(crate) fn index_insert(m: &mut NameIndex, k: &String, v: &String)
    ensures
        index_of(*final(m)) == index_add(index_of(*old(m)), k@, v@),
{
    m.entry(k.clone()).or_insert_with(DashSet::new).insert(v.clone());
}

/// Relies on `DashMap::get` and `DashSet::remove`: `v` leaves the set under
/// `k`, if there is one; the entry itself is kept.
#[verifier::external_body]
pub(crate) fn index_remove(m: &mut NameIndex, k: &String, v: &String)
    ensures
        index_of(*final(m)) == index_take(index_of(*old(m)), k@, v@),
{
    if let Some(s) = m.get(k) {
        s.remove(v);
    }
}

/// Relies on `DashMap::get` and `DashSet::is_empty`: whether the set under
/// `k` is empty, or `None` when `k` has no entry.
#[verifier::external_body]
pub(crate) fn index_is_empty(m: &NameIndex, k: &String) -> (r: Option<bool>)
    ensures
        r == (if index_of(*m).contains_key(k@) {
            Some(index_of(*m)[k@] == Set::<Seq<char>>::empty())
        } else {
            None::<bool>
        }),
{
    m.get(k).map(|s| s.is_empty())
}

/// Relies on `DashMap::remove`: the entry under `k` is gone.
#[verifier::external_body]
pub(crate) fn index_drop(m: &mut NameIndex, k: &String)
    ensures
        index_of(*final(m)) == index_of(*old(m)).remove(k@),
{
    m.remove(k);
}

/// Relies on `DashMap::get` and `DashSet::iter`: each member of the set under
/// `k` once, in no stated order, or `None` when `k` has no entry.
#[verifier::external_body]
pub(crate) fn index_get(m: &NameIndex, k: &str) -> (r: Option<Vec<String>>)
    ensures
        match r {
            None => !index_of(*m).contains_key(k@),
            Some(v) => index_of(*m).contains_key(k@)
                && v@.map_values(|s: String| s@).no_duplicates()
                && v@.map_values(|s: String| s@).to_set() == index_of(*m)[k@],
        },
{
    m.get(k).map(|s| s.iter().map(|e| e.key().clone()).collect())
}

} // verus!
