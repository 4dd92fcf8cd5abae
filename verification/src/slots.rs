//! The compiler's table from variable numbers to local slots, held in an
//! `indexmap::IndexMap`.
use vstd::prelude::*;
use indexmap::IndexMap;

verus! {

#[verifier::external_type_specification]
#[verifier::external_body]
#[verifier::reject_recursive_types(K)]
#[verifier::reject_recursive_types(V)]
#[verifier::reject_recursive_types(S)]
pub struct ExIndexMap<K, V, S>(IndexMap<K, V, S>);

/// The table that holds no pair.
pub open spec fn no_slots() -> Map<usize, usize> {
    Map::empty()
}

/// The pairs of variable number and slot that a table holds.
pub uninterp spec fn slot_map(m: IndexMap<usize, usize>) -> Map<usize, usize>;

/// Calls `IndexMap::new`; the contract claims that the new map holds no pair.
#[verifier::external_body]
pub(crate) fn slots_new() -> (r: IndexMap<usize, usize>)
    ensures
        slot_map(r) == no_slots(),
{
    IndexMap::new()
}

/// Calls `IndexMap::insert`; the contract claims that the key now maps to
/// the value and that no other pair changed.
#[verifier::external_body]
pub(crate) fn slots_insert(m: &mut IndexMap<usize, usize>, key: usize, value: usize)
    ensures
        slot_map(*final(m)) == slot_map(*old(m)).insert(key, value),
{
    m.insert(key, value);
}

/// Calls `IndexMap::get`; the contract claims that it finds the value of
/// the key exactly when the map holds the key.
#[verifier::external_body]
pub(crate) fn slots_get(m: &IndexMap<usize, usize>, key: usize) -> (r: Option<usize>)
    ensures
        match r {
            Some(v) => slot_map(*m).contains_key(key) && slot_map(*m)[key] == v,
            None => !slot_map(*m).contains_key(key),
        },
{
    m.get(&key).copied()
}

/// Calls `IndexMap::clone`; the contract claims that the copy holds the same pairs.
#[verifier::external_body]
pub(crate) fn slots_clone(m: &IndexMap<usize, usize>) -> (r: IndexMap<usize, usize>)
    ensures
        slot_map(r) == slot_map(*m),
{
    m.clone()
}

} // verus!
