//! Insertion-ordered name maps (`indexmap::IndexMap<String, Value>`).
//!
//! The map is an outside collection: its contents are named by
//! `name_map_entries`, and each method the library calls has a wrapper whose
//! contract states, over that name, what `indexmap` documents for it.

use vstd::prelude::*;
use indexmap::IndexMap;
use crate::value::Value;

verus! {

#[verifier::external_type_specification]
#[verifier::external_body]
#[verifier::reject_recursive_types(K)]
#[verifier::reject_recursive_types(V)]
#[verifier::reject_recursive_types(S)]
pub struct ExIndexMap<K, V, S>(IndexMap<K, V, S>);

/// The entries of a name map, in insertion order.
pub uninterp spec fn name_map_entries(m: IndexMap<String, Value>) -> Seq<(Seq<char>, Value)>;

/// Index of the first entry named `k` at or after `from`, or -1.
pub open spec fn entry_index_from(entries: Seq<(Seq<char>, Value)>, k: Seq<char>, from: int) -> int
    decreases entries.len() - from,
{
    if from < 0 || from >= entries.len() {
        -1
    } else if entries[from].0 == k {
        from
    } else {
        entry_index_from(entries, k, from + 1)
    }
}

/// Index of the entry named `k`, or -1.
pub open spec fn entry_index(entries: Seq<(Seq<char>, Value)>, k: Seq<char>) -> int {
    entry_index_from(entries, k, 0)
}

/// The value stored under `k`, if any.
pub open spec fn entry_lookup(entries: Seq<(Seq<char>, Value)>, k: Seq<char>) -> Option<Value> {
    let i = entry_index(entries, k);
    if i < 0 { None } else { Some(entries[i].1) }
}

/// Entries after storing `v` under `k`: an existing entry keeps its place and
/// takes the new value; a new key goes last.
pub open spec fn entry_insert(entries: Seq<(Seq<char>, Value)>, k: Seq<char>, v: Value) -> Seq<(Seq<char>, Value)> {
    let i = entry_index(entries, k);
    if i < 0 { entries.push((k, v)) } else { entries.update(i, (k, v)) }
}

/// Entries after removing the one named `k` by swapping the last entry into
/// its place; without such an entry nothing changes.
pub open spec fn entry_swap_remove(entries: Seq<(Seq<char>, Value)>, k: Seq<char>) -> Seq<(Seq<char>, Value)> {
    let i = entry_index(entries, k);
    if i < 0 { entries } else { entries.update(i, entries.last()).drop_last() }
}

pub proof fn lemma_entry_index_from_range(entries: Seq<(Seq<char>, Value)>, k: Seq<char>, from: int)
    requires
        0 <= from,
    ensures
        entry_index_from(entries, k, from) == -1 || (from <= entry_index_from(entries, k, from) < entries.len()
            && entries[entry_index_from(entries, k, from)].0 == k),
        entry_index_from(entries, k, from) == -1 ==> forall|j: int| from <= j < entries.len() ==> (#[trigger] entries[j]).0 != k,
        forall|j: int| from <= j < entry_index_from(entries, k, from) ==> (#[trigger] entries[j]).0 != k,
    decreases entries.len() - from,
{
    if from < entries.len() && entries[from].0 != k {
        lemma_entry_index_from_range(entries, k, from + 1);
    }
}

/// The index found for `k` lies in range, holds `k`, and no earlier entry
/// holds `k`; when none is found, no entry holds `k`.
pub proof fn lemma_entry_index(entries: Seq<(Seq<char>, Value)>, k: Seq<char>)
    ensures
        entry_index(entries, k) == -1 || (0 <= entry_index(entries, k) < entries.len()
            && entries[entry_index(entries, k)].0 == k),
        entry_index(entries, k) == -1 <==> forall|j: int| 0 <= j < entries.len() ==> (#[trigger] entries[j]).0 != k,
        forall|j: int| 0 <= j < entry_index(entries, k) ==> (#[trigger] entries[j]).0 != k,
{
    lemma_entry_index_from_range(entries, k, 0);
}

/// An empty map (`IndexMap::new`).
#[verifier::external_body]
pub fn name_map_new() -> (r: IndexMap<String, Value>)
    ensures
        name_map_entries(r) == Seq::<(Seq<char>, Value)>::empty(),
{
    IndexMap::new()
}

/// The value stored under `k` (`IndexMap::get`).
#[verifier::external_body]
pub fn name_map_get(m: &IndexMap<String, Value>, k: &str) -> (r: Option<Value>)
    ensures
        r == entry_lookup(name_map_entries(*m), k@),
{
    m.get(k).copied()
}

/// Stores `v` under `k`; an existing key keeps its place and the old value
/// is returned (`IndexMap::insert`).
#[verifier::external_body]
pub fn name_map_insert(m: &mut IndexMap<String, Value>, k: String, v: Value) -> (r: Option<Value>)
    ensures
        name_map_entries(*final(m)) == entry_insert(name_map_entries(*old(m)), k@, v),
        r == entry_lookup(name_map_entries(*old(m)), k@),
{
    m.insert(k, v)
}

/// Removes the entry named `k`, moving the last entry into its place, and
/// returns its value (`IndexMap::swap_remove`).
#[verifier::external_body]
pub fn name_map_swap_remove(m: &mut IndexMap<String, Value>, k: &str) -> (r: Option<Value>)
    ensures
        name_map_entries(*final(m)) == entry_swap_remove(name_map_entries(*old(m)), k@),
        r == entry_lookup(name_map_entries(*old(m)), k@),
{
    m.swap_remove(k)
}

/// Number of entries (`IndexMap::len`).
#[verifier::external_body]
pub fn name_map_len(m: &IndexMap<String, Value>) -> (r: usize)
    ensures
        r == name_map_entries(*m).len(),
{
    m.len()
}

/// The entry at position `i`, with its key copied out (`IndexMap::get_index`).
#[verifier::external_body]
pub fn name_map_get_index(m: &IndexMap<String, Value>, i: usize) -> (r: Option<(String, Value)>)
    ensures
        i < name_map_entries(*m).len() ==> r.is_some() && r.unwrap().0@ == name_map_entries(*m)[i as int].0
            && r.unwrap().1 == name_map_entries(*m)[i as int].1,
        i >= name_map_entries(*m).len() ==> r.is_none(),
{
    match m.get_index(i) {
        Some((k, v)) => Some((k.clone(), *v)),
        None => None,
    }
}

/// Replaces the value of the entry at position `i` (`IndexMap::get_index_mut`).
#[verifier::external_body]
pub fn name_map_set_index(m: &mut IndexMap<String, Value>, i: usize, v: Value)
    requires
        i < name_map_entries(*old(m)).len(),
    ensures
        name_map_entries(*final(m)) == name_map_entries(*old(m)).update(
            i as int,
            (name_map_entries(*old(m))[i as int].0, v),
        ),
{
    if let Some((_, slot)) = m.get_index_mut(i) {
        *slot = v;
    }
}

} // verus!
