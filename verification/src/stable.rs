//! The stable-memory structures that hold this crate's data.
//!
//! Everything in this file is trusted: the structures come from
//! `ic-stable-structures`, Verus does not look inside them, and each function
//! here states what the corresponding method of that crate does. Nothing else
//! in the crate touches stable memory directly.
//!
//! The three structs are opaque to Verus. The types they hold are bounded by
//! traits of `ic-stable-structures`, which Verus does not take in a type's
//! declaration, so each is kept in a private field instead.

use ic_stable_structures::memory_manager::{MemoryId, MemoryManager, VirtualMemory};
use ic_stable_structures::{Cell, DefaultMemoryImpl, StableBTreeMap};
use vstd::prelude::*;

verus! {

/// A `MemoryManager` over the default memory, which splits it into
/// independent regions.
#[verifier::external_body]
pub struct MemoryRegions {
    manager: MemoryManager<DefaultMemoryImpl>,
}

/// A `StableBTreeMap` from `u64` keys to byte strings, living in one region.
#[verifier::external_body]
pub struct StableTree {
    inner: StableBTreeMap<u64, Vec<u8>, VirtualMemory<DefaultMemoryImpl>>,
}

/// A stable `Cell` holding one `u64`, living in one region.
#[verifier::external_body]
pub struct StableCounter {
    inner: Cell<u64, VirtualMemory<DefaultMemoryImpl>>,
}

/// The key/value pairs that a tree currently holds.
pub uninterp spec fn tree_entries(tree: StableTree) -> Map<u64, Seq<u8>>;

/// The number that a counter cell currently holds.
pub uninterp spec fn counter_value(cell: StableCounter) -> u64;

/// The region that a tree was opened in. A tree keeps its region for good.
pub uninterp spec fn tree_region(tree: StableTree) -> u8;

/// The region that a counter cell was opened in. A cell keeps its region for
/// good.
pub uninterp spec fn counter_region(cell: StableCounter) -> u8;

/// Whether `listing` enumerates exactly the pairs of `entries`, by strictly
/// ascending key.
pub open spec fn lists_in_key_order<V>(listing: Seq<(u64, V)>, entries: Map<u64, V>) -> bool {
    &&& forall|i: int, j: int|
        0 <= i < j < listing.len() ==> (#[trigger] listing[i]).0 < (#[trigger] listing[j]).0
    &&& forall|i: int|
        0 <= i < listing.len() ==> entries.contains_key((#[trigger] listing[i]).0)
            && entries[listing[i].0] == listing[i].1
    &&& forall|k: u64| #[trigger]
        entries.contains_key(k) ==> exists|i: int|
            0 <= i < listing.len() && (#[trigger] listing[i]).0 == k
}

/// `MemoryManager::init` on `DefaultMemoryImpl::default()`. Nothing is
/// claimed of what the memory holds.
#[verifier::external_body]
pub(crate) fn regions_open() -> MemoryRegions {
    MemoryRegions { manager: MemoryManager::init(DefaultMemoryImpl::default()) }
}

/// `StableBTreeMap::new` on region `id`: writes a fresh header over whatever
/// the region held, so the map starts without entries. `MemoryId::new` rejects
/// 255. A region must back at most one structure at a time.
#[verifier::external_body]
pub(crate) fn tree_create(regions: &MemoryRegions, id: u8) -> (tree: StableTree)
    requires
        id < 255,
    ensures
        forall|key: u64| !tree_entries(tree).contains_key(key),
        tree_region(tree) == id,
{
    StableTree { inner: StableBTreeMap::new(regions.manager.get(MemoryId::new(id))) }
}

/// `StableBTreeMap::init` on region `id`: loads the map that the region
/// holds, or starts a new one. What it holds afterwards depends on the
/// memory, so nothing is claimed of it beyond the region it lives in. The call gives up on a region whose
/// header names a layout that `ic-stable-structures` does not know.
#[verifier::external_body]
pub(crate) fn tree_resume(regions: &MemoryRegions, id: u8) -> (tree: StableTree)
    requires
        id < 255,
    ensures
        tree_region(tree) == id,
{
    StableTree { inner: StableBTreeMap::init(regions.manager.get(MemoryId::new(id))) }
}

/// `StableBTreeMap::insert`: stores `value` under `key`, replacing and
/// returning what was stored there before. The map records the length of a
/// value in 32 bits, so longer values are kept out.
#[verifier::external_body]
pub(crate) fn tree_insert(tree: &mut StableTree, key: u64, value: Vec<u8>) -> (previous: Option<
    Vec<u8>,
>)
    requires
        value@.len() <= u32::MAX,
    ensures
        tree_entries(*final(tree)) == tree_entries(*old(tree)).insert(key, value@),
        previous is Some <==> tree_entries(*old(tree)).contains_key(key),
        previous is Some ==> previous->0@ == tree_entries(*old(tree))[key],
        tree_region(*final(tree)) == tree_region(*old(tree)),
{
    tree.inner.insert(key, value)
}

/// `StableBTreeMap::get`: the value stored under `key`, if there is one. The
/// map reads a value back by the length it keeps beside it, which has 32
/// bits.
#[verifier::external_body]
pub(crate) fn tree_get(tree: &StableTree, key: u64) -> (found: Option<Vec<u8>>)
    ensures
        found is Some <==> tree_entries(*tree).contains_key(key),
        found is Some ==> found->0@ == tree_entries(*tree)[key],
        found is Some ==> found->0@.len() <= u32::MAX,
{
    tree.inner.get(&key)
}

/// `StableBTreeMap::iter`, collected: every entry of the map, sorted by key.
#[verifier::external_body]
pub(crate) fn tree_scan(tree: &StableTree) -> (listing: Vec<(u64, Vec<u8>)>)
    ensures
        lists_in_key_order(listing@.map_values(|e: (u64, Vec<u8>)| (e.0, e.1@)), tree_entries(*tree)),
{
    tree.inner.iter().map(|entry| entry.into_pair()).collect()
}

/// `Cell::new` on region `id` with the value `start`: overwrites whatever the
/// region held.
#[verifier::external_body]
pub(crate) fn counter_create(regions: &MemoryRegions, id: u8, start: u64) -> (cell: StableCounter)
    requires
        id < 255,
    ensures
        counter_value(cell) == start,
        counter_region(cell) == id,
{
    StableCounter { inner: Cell::new(regions.manager.get(MemoryId::new(id)), start) }
}

/// `Cell::init` on region `id` with the default `fallback`: loads the value
/// that the region holds, or starts at the default. Nothing is claimed of the
/// value, only of the region the cell lives in. The call gives up on a region
/// whose header names a layout that `ic-stable-structures` does not know.
#[verifier::external_body]
pub(crate) fn counter_resume(regions: &MemoryRegions, id: u8, fallback: u64) -> (cell:
    StableCounter)
    requires
        id < 255,
    ensures
        counter_region(cell) == id,
{
    StableCounter { inner: Cell::init(regions.manager.get(MemoryId::new(id)), fallback) }
}

/// `Cell::get`.
#[verifier::external_body]
pub(crate) fn counter_get(cell: &StableCounter) -> (value: u64)
    ensures
        value == counter_value(*cell),
{
    *cell.inner.get()
}

/// `Cell::set`: writes `value` to the region and keeps it as the cell's value.
#[verifier::external_body]
pub(crate) fn counter_set(cell: &mut StableCounter, value: u64)
    ensures
        counter_value(*final(cell)) == value,
        counter_region(*final(cell)) == counter_region(*old(cell)),
{
    cell.inner.set(value);
}

} // verus!
