//! The per-element storage of a channel: a secondary map of the `slotmap`
//! crate, keyed by generational handles and holding one `Value` per occupied
//! slot. The map itself is not verified; this module states what its
//! operations do, and the rest of the crate is proved against that.

use crate::handle::{key_index, key_version};
use crate::values::Value;
use vstd::prelude::*;

verus! {

/// A secondary map from handles to values. It has one slot per arena index;
/// an occupied slot remembers the generation of the handle that filled it.
#[derive(Debug)]
#[verifier::external_body]
pub struct ValueSlots {
    inner: slotmap::SecondaryMap<slotmap::DefaultKey, Value>,
}

/// The occupied slots of the map: arena index to generation and value.
pub uninterp spec fn slot_table(m: ValueSlots) -> Map<u32, (u32, Value)>;

/// The table of a map with no occupied slot.
pub open spec fn empty_table() -> Map<u32, (u32, Value)> {
    Map::empty()
}

/// Whether the slot for `key` is occupied by that very key: same index and
/// same generation.
pub open spec fn holds(t: Map<u32, (u32, Value)>, key: u64) -> bool {
    t.contains_key(key_index(key)) && t[key_index(key)].0 == key_version(key)
}

/// The value stored under `key`, or `default` where the key holds none.
pub open spec fn value_or(t: Map<u32, (u32, Value)>, key: u64, default: Value) -> Value {
    if holds(t, key) {
        t[key_index(key)].1
    } else {
        default
    }
}

/// The generation recorded in slot `idx`; an empty slot counts as
/// generation zero.
pub open spec fn slot_version(t: Map<u32, (u32, Value)>, idx: u32) -> u32 {
    if t.contains_key(idx) {
        t[idx].0
    } else {
        0
    }
}

/// Whether generation `a` lies behind generation `b`, counting modulo 2^32:
/// the distance from `b` forward to `a` is at least half the range.
pub open spec fn is_older(a: u32, b: u32) -> bool {
    (if a >= b {
        a - b
    } else {
        a + 0x1_0000_0000 - b
    }) >= 0x8000_0000
}

/// Whether the map lets `key` have an entry: the key is not null, and it
/// either occupies its slot already or is not older than what the slot
/// records.
pub open spec fn admits(t: Map<u32, (u32, Value)>, key: u64) -> bool {
    key_index(key) != u32::MAX && (holds(t, key) || !is_older(
        key_version(key),
        slot_version(t, key_index(key)),
    ))
}

/// The table after the slot of `key` is filled with `value` under the key's
/// generation.
pub open spec fn filled(t: Map<u32, (u32, Value)>, key: u64, value: Value) -> Map<
    u32,
    (u32, Value),
> {
    t.insert(key_index(key), (key_version(key), value))
}

/// Whether `entries` lists the occupied slots of `t`, each once, by
/// ascending arena index, each with the encoding of its key and its value.
pub open spec fn lists(entries: Seq<(u64, Value)>, t: Map<u32, (u32, Value)>) -> bool {
    &&& forall|i: int|
        0 <= i < entries.len() ==> {
            &&& crate::handle::is_canonical(#[trigger] entries[i].0)
            &&& holds(t, entries[i].0)
            &&& t[key_index(entries[i].0)].1 == entries[i].1
        }
    &&& forall|i: int, j: int|
        0 <= i < j < entries.len() ==> key_index(#[trigger] entries[i].0) < key_index(
            #[trigger] entries[j].0,
        )
    &&& forall|idx: u32| #[trigger]
        t.contains_key(idx) ==> exists|i: int|
            0 <= i < entries.len() && key_index(#[trigger] entries[i].0) == idx
}

/// Whether `entries` lists the occupied slots of `t`, each once, by
/// ascending arena index, each with the encoding of its key and its value
/// to be changed in place.
pub open spec fn lists_mut(entries: Seq<(u64, &mut Value)>, t: Map<u32, (u32, Value)>) -> bool {
    &&& forall|i: int|
        0 <= i < entries.len() ==> {
            &&& crate::handle::is_canonical(#[trigger] entries[i].0)
            &&& holds(t, entries[i].0)
            &&& t[key_index(entries[i].0)].1 == *entries[i].1
        }
    &&& forall|i: int, j: int|
        0 <= i < j < entries.len() ==> key_index(#[trigger] entries[i].0) < key_index(
            #[trigger] entries[j].0,
        )
    &&& forall|idx: u32| #[trigger]
        t.contains_key(idx) ==> exists|i: int|
            0 <= i < entries.len() && key_index(#[trigger] entries[i].0) == idx
}

/// `SecondaryMap::new`: a map with no occupied slot.
#[verifier::external_body]
pub(crate) fn slots_new() -> (m: ValueSlots)
    ensures
        slot_table(m) == empty_table(),
{
    ValueSlots { inner: slotmap::SecondaryMap::new() }
}

/// `SecondaryMap::clone`: a map of its own with the same occupied slots.
#[verifier::external_body]
pub(crate) fn slots_clone(m: &ValueSlots) -> (r: ValueSlots)
    ensures
        slot_table(r) == slot_table(*m),
{
    ValueSlots { inner: m.inner.clone() }
}

/// `SecondaryMap::get`, copied out: the value in the slot of `key` where
/// that slot records the key's generation, nothing otherwise.
#[verifier::external_body]
pub(crate) fn slots_get(m: &ValueSlots, key: u64) -> (r: Option<Value>)
    ensures
        holds(slot_table(*m), key) ==> r == Some(slot_table(*m)[key_index(key)].1),
        !holds(slot_table(*m), key) ==> r is None,
{
    m.inner.get(slotmap::DefaultKey::from(slotmap::KeyData::from_ffi(key))).copied()
}

/// `SecondaryMap::entry` followed by `Entry::or_insert`: where the map
/// admits `key`, its slot ends up filled under the key's generation, with
/// the value it held for that key or else with `default`, and that value is
/// handed out to be changed in place. A slot that held a value for an older
/// generation loses it. Where the map does not admit the key, nothing
/// changes.
#[verifier::external_body]
pub(crate) fn slots_entry_or_insert(m: &mut ValueSlots, key: u64, default: Value) -> (r: Option<
    &mut Value,
>)
    ensures
        r is Some <==> admits(slot_table(*old(m)), key),
        r is Some ==> *r.unwrap() == value_or(slot_table(*old(m)), key, default),
        r is Some ==> slot_table(*final(m)) == filled(slot_table(*old(m)), key, *final(r.unwrap())),
        r is None ==> slot_table(*final(m)) == slot_table(*old(m)),
{
    m.inner.entry(slotmap::DefaultKey::from(slotmap::KeyData::from_ffi(key))).map(
        |e| e.or_insert(default),
    )
}

/// `SecondaryMap::iter`, collected: every occupied slot by ascending arena
/// index, as the encoding of its key and a copy of its value.
#[verifier::external_body]
pub(crate) fn slots_iter(m: &ValueSlots) -> (r: Vec<(u64, Value)>)
    ensures
        lists(r@, slot_table(*m)),
{
    m.inner.iter().map(|(k, v)| (slotmap::Key::data(&k).as_ffi(), *v)).collect()
}

/// `SecondaryMap::iter_mut`, collected: every occupied slot by ascending
/// arena index, as the encoding of its key and its value, to be changed in
/// place. No slot is filled or emptied.
#[verifier::external_body]
pub(crate) fn slots_iter_mut(m: &mut ValueSlots) -> (r: Vec<(u64, &mut Value)>)
    ensures
        lists_mut(r@, slot_table(*old(m))),
        slot_table(*final(m)).dom() == slot_table(*old(m)).dom(),
        forall|i: int|
            0 <= i < r.len() ==> slot_table(*final(m))[key_index(#[trigger] r[i].0)] == (
                key_version(r[i].0),
                *final(r[i].1),
            ),
{
    m.inner.iter_mut().map(|(k, v)| (slotmap::Key::data(&k).as_ffi(), v)).collect()
}

} // verus!
