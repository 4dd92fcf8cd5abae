//! Tables of the bytecode machine, held in `indexmap::IndexMap`s from keys
//! to values: a table keeps its entries in the order in which their keys
//! were first inserted.
use vstd::prelude::*;
use indexmap::IndexMap;
use crate::value::{values_view, SpecValue, Value};

verus! {

/// The entries of a table, in order.
pub uninterp spec fn table_entries(m: IndexMap<usize, Value>) -> Seq<(usize, SpecValue)>;

/// The position of the entry with key `k`, if any (the first one).
pub open spec fn entry_index(entries: Seq<(usize, SpecValue)>, k: usize) -> Option<int>
    decreases entries.len(),
{
    if entries.len() == 0 {
        None
    } else {
        match entry_index(entries.drop_last(), k) {
            Some(i) => Some(i),
            None => if entries.last().0 == k {
                Some(entries.len() - 1)
            } else {
                None
            },
        }
    }
}

/// The value of key `k`, if the table holds it.
pub open spec fn lookup(entries: Seq<(usize, SpecValue)>, k: usize) -> Option<SpecValue> {
    match entry_index(entries, k) {
        Some(i) => Some(entries[i].1),
        None => None,
    }
}

/// Inserting `k` with `v`: an entry with key `k` keeps its place and takes
/// the new value; a new key goes last.
pub open spec fn insert_entry(entries: Seq<(usize, SpecValue)>, k: usize, v: SpecValue) -> Seq<(usize, SpecValue)> {
    match entry_index(entries, k) {
        Some(i) => entries.update(i, (k, v)),
        None => entries.push((k, v)),
    }
}

/// The values of the entries, in order.
pub open spec fn entry_values(entries: Seq<(usize, SpecValue)>) -> Seq<SpecValue> {
    Seq::new(entries.len(), |i: int| entries[i].1)
}

/// `entry_index` finds the first entry with the key, or reports that none has it.
pub proof fn lemma_entry_index(entries: Seq<(usize, SpecValue)>, k: usize)
    ensures
        match entry_index(entries, k) {
            Some(i) => 0 <= i < entries.len() && entries[i].0 == k && forall|j: int|
                0 <= j < i ==> entries[j].0 != k,
            None => forall|j: int| 0 <= j < entries.len() ==> entries[j].0 != k,
        },
    decreases entries.len(),
{
    if entries.len() > 0 {
        let t = entries.drop_last();
        lemma_entry_index(t, k);
        assert forall|j: int| 0 <= j < t.len() implies t[j] == entries[j] by {}
    }
}

/// Calls `IndexMap::new`; the contract claims that the table is empty.
#[verifier::external_body]
pub(crate) fn table_new() -> (r: IndexMap<usize, Value>)
    ensures
        table_entries(r) == Seq::<(usize, SpecValue)>::empty(),
{
    IndexMap::new()
}

/// Calls `IndexMap::insert`; the contract claims what its documentation
/// says: an existing key keeps its place and takes the new value, a new key
/// is added last.
#[verifier::external_body]
pub(crate) fn table_insert(m: &mut IndexMap<usize, Value>, k: usize, v: Value)
    ensures
        table_entries(*final(m)) == insert_entry(table_entries(*old(m)), k, v@),
{
    m.insert(k, v);
}

/// Calls `IndexMap::get` and copies the value found; the contract claims
/// that it finds the value of the key exactly when the table holds the key.
#[verifier::external_body]
pub(crate) fn table_get(m: &IndexMap<usize, Value>, k: usize) -> (r: Option<Value>)
    ensures
        match r {
            Some(v) => lookup(table_entries(*m), k) == Some(v@),
            None => lookup(table_entries(*m), k) is None,
        },
{
    m.get(&k).cloned()
}

/// Calls `IndexMap::len`; the contract claims that it counts the entries.
#[verifier::external_body]
pub(crate) fn table_len(m: &IndexMap<usize, Value>) -> (r: usize)
    ensures
        r == table_entries(*m).len(),
{
    m.len()
}

/// Calls `IndexMap::values` and copies them; the contract claims that they
/// come in the order of the entries.
#[verifier::external_body]
pub(crate) fn table_values(m: &IndexMap<usize, Value>) -> (r: Vec<Value>)
    ensures
        values_view(r@) == entry_values(table_entries(*m)),
{
    m.values().cloned().collect()
}

/// Calls `IndexMap::clone`; the contract claims that the copy holds the
/// same entries in the same order.
#[verifier::external_body]
pub(crate) fn table_clone(m: &IndexMap<usize, Value>) -> (r: IndexMap<usize, Value>)
    ensures
        table_entries(r) == table_entries(*m),
{
    m.clone()
}

} // verus!
