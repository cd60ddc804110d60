//! Stable memory: the tables and the counter cell that outlive the process.
//!
//! The three types of this module hold values of `ic_stable_structures`, whose
//! contents the verifier cannot see. What a table holds is named by
//! [`table_entries`] and what a cell holds by [`cell_value`]; the functions below
//! call the structure's own methods, and their contracts state over those two
//! names what the methods are documented to do. None of these contracts is proved.
//!
//! The structures write through to the memory region they were made on, and a
//! region is addressed by its slot alone. The contracts therefore hold of
//! structures that live on different slots of one set of regions, which is how
//! [`crate::store::Catalog`] makes them, and of one set of regions in a process:
//! in a canister every set lies on the same stable memory. A call stops the
//! process when the memory underneath can no longer grow, or when it holds a
//! structure of a layout that the installed version cannot read.

use vstd::prelude::*;
use ic_stable_structures::memory_manager::{MemoryId, MemoryManager, VirtualMemory};
use ic_stable_structures::{Cell, DefaultMemoryImpl, StableBTreeMap};

verus! {

/// The memory of the process, divided into regions that are addressed by slot.
/// A catalog holds its regions and hands them out when it is closed.
#[verifier::external_body]
pub struct Regions {
    inner: MemoryManager<DefaultMemoryImpl>,
}

/// An ordered map from id to bytes in one region.
#[verifier::external_body]
pub struct Table {
    inner: StableBTreeMap<u64, Vec<u8>, VirtualMemory<DefaultMemoryImpl>>,
}

/// One integer in one region.
#[verifier::external_body]
pub struct IdCell {
    inner: Cell<u64, VirtualMemory<DefaultMemoryImpl>>,
}

/// The entries of a table.
pub uninterp spec fn table_entries(t: Table) -> Map<u64, Seq<u8>>;

/// The integer that a cell holds.
pub uninterp spec fn cell_value(c: IdCell) -> u64;

/// `MemoryManager::init` on the default memory of the platform. Nothing is
/// claimed of the regions.
#[verifier::external_body]
pub(crate) fn regions_open() -> (regions: Regions) {
    Regions { inner: MemoryManager::init(DefaultMemoryImpl::default()) }
}

/// `StableBTreeMap::new` on the region that `MemoryManager::get` gives for
/// `slot`: a table without entries, whatever the region held before. Slot 255
/// is reserved by the memory manager, and `MemoryId::new` refuses it.
#[verifier::external_body]
pub(crate) fn table_new(regions: &Regions, slot: u8) -> (t: Table)
    requires
        slot < 255,
    ensures
        table_entries(t) == (Map::<u64, Seq<u8>>::empty()),
{
    Table { inner: StableBTreeMap::new(regions.inner.get(MemoryId::new(slot))) }
}

/// `StableBTreeMap::init` on the region that `MemoryManager::get` gives for
/// `slot`: the table that the region holds, or a new one if it holds none.
/// Nothing is claimed of its entries.
#[verifier::external_body]
pub(crate) fn table_open(regions: &Regions, slot: u8) -> (t: Table)
    requires
        slot < 255,
{
    Table { inner: StableBTreeMap::init(regions.inner.get(MemoryId::new(slot))) }
}

/// `StableBTreeMap::get`: the value stored under `key`, if there is one.
#[verifier::external_body]
pub(crate) fn table_get(t: &Table, key: u64) -> (found: Option<Vec<u8>>)
    ensures
        match found {
            Some(bytes) => table_entries(*t).contains_key(key) && table_entries(*t)[key] == bytes@,
            None => !table_entries(*t).contains_key(key),
        },
{
    t.inner.get(&key)
}

/// `StableBTreeMap::insert`: stores `value` under `key`, in place of the value
/// that was there, and returns that earlier value if there was one. The table
/// writes the length of a value in four bytes.
#[verifier::external_body]
pub(crate) fn table_insert(t: &mut Table, key: u64, value: Vec<u8>) -> (previous: Option<Vec<u8>>)
    requires
        value@.len() <= u32::MAX,
    ensures
        table_entries(*final(t)) == table_entries(*old(t)).insert(key, value@),
        match previous {
            Some(bytes) => table_entries(*old(t)).contains_key(key) && table_entries(*old(t))[key]
                == bytes@,
            None => !table_entries(*old(t)).contains_key(key),
        },
{
    t.inner.insert(key, value)
}

/// `StableBTreeMap::remove`: takes the entry of `key` out and returns its value
/// if there was one.
#[verifier::external_body]
pub(crate) fn table_remove(t: &mut Table, key: u64) -> (previous: Option<Vec<u8>>)
    ensures
        table_entries(*final(t)) == table_entries(*old(t)).remove(key),
        match previous {
            Some(bytes) => table_entries(*old(t)).contains_key(key) && table_entries(*old(t))[key]
                == bytes@,
            None => !table_entries(*old(t)).contains_key(key),
        },
{
    t.inner.remove(&key)
}

/// `StableBTreeMap::iter`, collected: every entry of the table once, in
/// ascending order of key.
#[verifier::external_body]
pub(crate) fn table_scan(t: &Table) -> (entries: Vec<(u64, Vec<u8>)>)
    ensures
        forall|i: int|
            0 <= i < entries@.len() ==> table_entries(*t).contains_key((#[trigger] entries@[i]).0)
                && table_entries(*t)[entries@[i].0] == entries@[i].1@,
        forall|i: int, j: int|
            0 <= i < j < entries@.len() ==> (#[trigger] entries@[i]).0 < (#[trigger] entries@[j]).0,
        forall|k: u64| #[trigger]
            table_entries(*t).contains_key(k) ==> exists|i: int|
                0 <= i < entries@.len() && (#[trigger] entries@[i]).0 == k,
{
    let mut entries = Vec::new();
    for entry in t.inner.iter() {
        entries.push(entry.into_pair());
    }
    entries
}

/// `Cell::new` on the region that `MemoryManager::get` gives for `slot`: a cell
/// that holds `value`, whatever the region held before.
#[verifier::external_body]
pub(crate) fn cell_new(regions: &Regions, slot: u8, value: u64) -> (c: IdCell)
    requires
        slot < 255,
    ensures
        cell_value(c) == value,
{
    IdCell { inner: Cell::new(regions.inner.get(MemoryId::new(slot)), value) }
}

/// `Cell::init` on the region that `MemoryManager::get` gives for `slot`: the
/// cell that the region holds, or a new one with `value` if it holds none.
/// Nothing is claimed of what it holds.
#[verifier::external_body]
pub(crate) fn cell_open(regions: &Regions, slot: u8, value: u64) -> (c: IdCell)
    requires
        slot < 255,
{
    IdCell { inner: Cell::init(regions.inner.get(MemoryId::new(slot)), value) }
}

/// `Cell::get`: the integer that the cell holds.
#[verifier::external_body]
pub(crate) fn cell_get(c: &IdCell) -> (value: u64)
    ensures
        value == cell_value(*c),
{
    *c.inner.get()
}

/// `Cell::set`: stores `value` and returns the integer that the cell held.
#[verifier::external_body]
pub(crate) fn cell_set(c: &mut IdCell, value: u64) -> (previous: u64)
    ensures
        cell_value(*final(c)) == value,
        previous == cell_value(*old(c)),
{
    c.inner.set(value)
}

} // verus!
