//! The arena in which a group keeps its channels: a slot map of the
//! `slotmap` crate. It issues a fresh generational key for every channel
//! put in and forgets the key when the channel is taken out. The slot map
//! itself is not verified; this module states what its operations do.

use crate::cell::ChannelCell;
use crate::handle::{is_canonical, key_index, key_version};
use vstd::prelude::*;

verus! {

/// A slot map of channel cells.
#[derive(Debug)]
#[verifier::external_body]
pub struct CellSlots {
    inner: slotmap::SlotMap<slotmap::DefaultKey, ChannelCell>,
}

/// The cells in the slot map, each under the 64-bit encoding of its key.
pub uninterp spec fn cell_table(m: CellSlots) -> Map<u64, ChannelCell>;

/// The version that each slot of the slot map records, by slot index, for
/// every slot that was ever filled. A filled slot records the version of
/// the key that fills it, which is odd; an emptied slot records the number
/// after it, which is even.
pub uninterp spec fn cell_versions(m: CellSlots) -> Map<u32, u32>;

/// The versions of a slot map in which no slot was ever filled.
pub open spec fn no_versions() -> Map<u32, u32> {
    Map::empty()
}

/// The version of the key that is issued for slot `idx`: what the slot
/// records, made odd; a slot that was never filled starts at one.
pub open spec fn issued_version(versions: Map<u32, u32>, idx: u32) -> u32 {
    if versions.contains_key(idx) {
        versions[idx] | 1
    } else {
        1
    }
}

/// The version that a slot records once the key of version `version` has
/// left it: the next number, counting modulo 2^32.
pub open spec fn retired_version(version: u32) -> u32 {
    if version == u32::MAX {
        0
    } else {
        (version + 1) as u32
    }
}

/// The table of a slot map that holds nothing.
pub open spec fn no_cells() -> Map<u64, ChannelCell> {
    Map::empty()
}

/// The largest number of cells a slot map takes before it may refuse
/// another.
pub const CELL_LIMIT: usize = 0xffff_fffe;

/// `SlotMap::new`: a slot map that holds nothing.
#[verifier::external_body]
pub(crate) fn cells_new() -> (m: CellSlots)
    ensures
        cell_table(m) == no_cells(),
        cell_versions(m) == no_versions(),
{
    CellSlots { inner: slotmap::SlotMap::new() }
}

/// `SlotMap::clone`: a slot map of its own with the same keys, each
/// holding what cloning the cell under that key gives, and with the same
/// versions in its slots.
#[verifier::external_body]
pub(crate) fn cells_clone(m: &CellSlots) -> (r: CellSlots)
    ensures
        cell_table(r).dom() == cell_table(*m).dom(),
        cell_versions(r) == cell_versions(*m),
        forall|k: u64| #[trigger]
            cell_table(r).contains_key(k) ==> vstd::pervasive::strictly_cloned(
                cell_table(*m)[k],
                cell_table(r)[k],
            ),
{
    CellSlots { inner: m.inner.clone() }
}

/// `SlotMap::len`: the number of cells held.
#[verifier::external_body]
pub(crate) fn cells_len(m: &CellSlots) -> (n: usize)
    ensures
        n == cell_table(*m).dom().len(),
{
    m.inner.len()
}

/// `SlotMap::insert`: the cell is kept under a key that no cell held at
/// that moment has; the key is not the null key and its generation is odd.
/// The key's version is the one issued for its slot, and the slot records
/// it. The slot map must hold fewer than `CELL_LIMIT` cells.
#[verifier::external_body]
pub(crate) fn cells_insert(m: &mut CellSlots, cell: ChannelCell) -> (key: u64)
    requires
        cell_table(*old(m)).dom().finite(),
        cell_table(*old(m)).dom().len() < CELL_LIMIT,
    ensures
        is_canonical(key),
        key_index(key) != u32::MAX,
        !cell_table(*old(m)).contains_key(key),
        cell_table(*final(m)) == cell_table(*old(m)).insert(key, cell),
        key_version(key) == issued_version(cell_versions(*old(m)), key_index(key)),
        cell_versions(*final(m)) == cell_versions(*old(m)).insert(
            key_index(key),
            key_version(key),
        ),
{
    slotmap::Key::data(&m.inner.insert(cell)).as_ffi()
}

/// `SlotMap::remove`: the cell under `key` leaves the slot map and is
/// handed out, and the slot records the version after the key's; a key that
/// holds no cell changes nothing.
#[verifier::external_body]
pub(crate) fn cells_remove(m: &mut CellSlots, key: u64) -> (r: Option<ChannelCell>)
    requires
        is_canonical(key),
    ensures
        cell_table(*old(m)).contains_key(key) ==> r == Some(cell_table(*old(m))[key]),
        !cell_table(*old(m)).contains_key(key) ==> r is None,
        cell_table(*final(m)) == cell_table(*old(m)).remove(key),
        r is Some ==> cell_versions(*final(m)) == cell_versions(*old(m)).insert(
            key_index(key),
            retired_version(key_version(key)),
        ),
        r is None ==> cell_versions(*final(m)) == cell_versions(*old(m)),
{
    m.inner.remove(slotmap::DefaultKey::from(slotmap::KeyData::from_ffi(key)))
}

/// `SlotMap::get`: the cell under `key`, if the key holds one.
#[verifier::external_body]
pub(crate) fn cells_get(m: &CellSlots, key: u64) -> (r: Option<&ChannelCell>)
    requires
        is_canonical(key),
    ensures
        cell_table(*m).contains_key(key) ==> r is Some && *r.unwrap() == cell_table(*m)[key],
        !cell_table(*m).contains_key(key) ==> r is None,
{
    m.inner.get(slotmap::DefaultKey::from(slotmap::KeyData::from_ffi(key)))
}

/// `SlotMap::get_mut`: the cell under `key`, to be changed in place, if the
/// key holds one. No cell comes or goes, and no slot changes its version.
#[verifier::external_body]
pub(crate) fn cells_get_mut(m: &mut CellSlots, key: u64) -> (r: Option<&mut ChannelCell>)
    requires
        is_canonical(key),
    ensures
        r is Some <==> cell_table(*old(m)).contains_key(key),
        r is Some ==> *r.unwrap() == cell_table(*old(m))[key],
        r is Some ==> cell_table(*final(m)) == cell_table(*old(m)).insert(key, *final(r.unwrap())),
        r is None ==> cell_table(*final(m)) == cell_table(*old(m)),
        cell_versions(*final(m)) == cell_versions(*old(m)),
{
    m.inner.get_mut(slotmap::DefaultKey::from(slotmap::KeyData::from_ffi(key)))
}

} // verus!
