//! Channels: one sparse series of values over the identifiers of one element
//! kind. A channel is total: an identifier without an entry reads as the
//! default of the value type.

use crate::bridge::{
    handle_to_lua, key_from_lua, spec_handle_from_lua, spec_handle_to_lua, ForeignValue,
};
use crate::handle::Handle;
use crate::ids::ChannelKey;
use crate::slots::{
    is_older, lists, lists_mut, slot_table, slot_version, slots_entry_or_insert, slots_get,
    slots_clone, slots_iter, slots_iter_mut, slots_new, ValueSlots,
};
use crate::tags::{ChannelError, ChannelKeyType, ChannelValueType};
use crate::values::{ChannelValue, Value};
use core::marker::PhantomData;
use vstd::prelude::*;

verus! {

/// A channel whose element kind and value type are known only by their
/// tags. Every value it stores is of the tagged value type.
#[derive(Debug)]
pub struct DynChannel {
    key_type: ChannelKeyType,
    value_type: ChannelValueType,
    inner: ValueSlots,
}

/// Whether the slot of `h` in `t` is occupied by `h` itself.
pub open spec fn table_has(t: Map<u32, (u32, Value)>, h: Handle) -> bool {
    t.contains_key(h.index()) && t[h.index()].0 == h.generation()
}

/// Whether an entry for `h` exists in `t` or can be made: `h` is not null,
/// and it occupies its slot or is not older than what the slot records.
pub open spec fn table_admits(t: Map<u32, (u32, Value)>, h: Handle) -> bool {
    !h.spec_is_null() && (table_has(t, h) || !is_older(h.generation(), slot_version(t, h.index())))
}

/// The table `t` after the slot of `h` is given to `h` with `value`.
pub open spec fn table_with(t: Map<u32, (u32, Value)>, h: Handle, value: Value) -> Map<
    u32,
    (u32, Value),
> {
    t.insert(h.index(), (h.generation(), value))
}

/// Whether every value in `t` is of type `vty`.
pub open spec fn table_typed(t: Map<u32, (u32, Value)>, vty: ChannelValueType) -> bool {
    forall|idx: u32| #[trigger] t.contains_key(idx) ==> t[idx].1.spec_value_type() == vty
}

/// Whether `entries` lists the occupied slots of `t`, each once, by
/// ascending arena index, each as its handle and its value.
pub open spec fn lists_handles(entries: Seq<(Handle, Value)>, t: Map<u32, (u32, Value)>) -> bool {
    &&& forall|i: int|
        0 <= i < entries.len() ==> {
            &&& (#[trigger] entries[i]).0.wf()
            &&& table_has(t, entries[i].0)
            &&& t[entries[i].0.index()].1 == entries[i].1
        }
    &&& forall|i: int, j: int|
        0 <= i < j < entries.len() ==> (#[trigger] entries[i]).0.index() < (
        #[trigger] entries[j]).0.index()
    &&& forall|idx: u32| #[trigger]
        t.contains_key(idx) ==> exists|i: int|
            0 <= i < entries.len() && (#[trigger] entries[i]).0.index() == idx
}

/// Whether `values` are the values in the occupied slots of `t`, by
/// ascending arena index.
pub open spec fn lists_values(values: Seq<Value>, t: Map<u32, (u32, Value)>) -> bool {
    exists|entries: Seq<(Handle, Value)>|
        {
            &&& #[trigger] lists_handles(entries, t)
            &&& entries.len() == values.len()
            &&& forall|i: int| 0 <= i < values.len() ==> #[trigger] values[i] == entries[i].1
        }
}

/// What becomes of the table `t` of a channel of values of type `vty`, and
/// what is answered, when the first `n` of `values` are written to the
/// first `n` of `keys`, one after the other, up to the first that fails: a
/// value of the wrong shape fails with `TypeMismatch`, a key that the table
/// does not admit with `NotFound`. What was written before stays written.
pub open spec fn bulk_written(
    t: Map<u32, (u32, Value)>,
    vty: ChannelValueType,
    keys: Seq<u64>,
    values: Seq<ForeignValue>,
    n: nat,
) -> (Map<u32, (u32, Value)>, Result<(), ChannelError>)
    decreases n,
{
    if n == 0 {
        (t, Ok(()))
    } else {
        let before = bulk_written(t, vty, keys, values, (n - 1) as nat);
        if before.1 is Err {
            before
        } else {
            let h = Handle::spec_from_ffi(keys[n - 1]);
            match Value::spec_cast_from_lua(vty, values[n - 1]) {
                None => (before.0, Err(ChannelError::TypeMismatch)),
                Some(v) => if table_admits(before.0, h) {
                    (table_with(before.0, h, v), Ok(()))
                } else {
                    (before.0, Err(ChannelError::NotFound))
                },
            }
        }
    }
}

impl DynChannel {
    pub closed spec fn spec_key_type(&self) -> ChannelKeyType {
        self.key_type
    }

    pub closed spec fn spec_value_type(&self) -> ChannelValueType {
        self.value_type
    }

    /// The occupied slots: arena index to generation and value.
    pub closed spec fn table(&self) -> Map<u32, (u32, Value)> {
        slot_table(self.inner)
    }

    /// The value that identifiers without an entry read as.
    pub open spec fn spec_default(&self) -> Value {
        Value::spec_default_of(self.spec_value_type())
    }

    /// Every stored value is of the channel's value type.
    pub open spec fn wf(&self) -> bool {
        table_typed(self.table(), self.spec_value_type())
    }

    /// Whether `h` has an entry of its own.
    pub open spec fn has(&self, h: Handle) -> bool {
        table_has(self.table(), h)
    }

    /// What `h` reads as: its entry, or the default.
    pub open spec fn at(&self, h: Handle) -> Value {
        if self.has(h) {
            self.table()[h.index()].1
        } else {
            self.spec_default()
        }
    }

    /// Whether `h` has an entry or can be given one.
    pub open spec fn admits(&self, h: Handle) -> bool {
        table_admits(self.table(), h)
    }

    /// An empty channel for the given element kind and value type.
    pub fn new(key_type: ChannelKeyType, value_type: ChannelValueType) -> (c: DynChannel)
        ensures
            c.wf(),
            c.spec_key_type() == key_type,
            c.spec_value_type() == value_type,
            c.table() == Map::<u32, (u32, Value)>::empty(),
    {
        DynChannel { key_type, value_type, inner: slots_new() }
    }

    pub fn key_type(&self) -> (t: ChannelKeyType)
        ensures
            t == self.spec_key_type(),
    {
        self.key_type
    }

    pub fn value_type(&self) -> (t: ChannelValueType)
        ensures
            t == self.spec_value_type(),
    {
        self.value_type
    }

    /// What `h` reads as: its entry, or the default of the value type.
    pub fn value(&self, h: Handle) -> (v: Value)
        ensures
            v == self.at(h),
    {
        match slots_get(&self.inner, h.as_ffi()) {
            Some(v) => v,
            None => Value::default_of(self.value_type),
        }
    }

    /// Every entry, by ascending arena index.
    pub fn entries(&self) -> (r: Vec<(Handle, Value)>)
        ensures
            lists_handles(r@, self.table()),
    {
        let raw = slots_iter(&self.inner);
        let ghost t = self.table();
        let mut out: Vec<(Handle, Value)> = Vec::new();
        let mut i: usize = 0;
        while i < raw.len()
            invariant
                i <= raw.len(),
                out.len() == i,
                lists(raw@, t),
                forall|k: int|
                    0 <= k < i ==> (#[trigger] out[k]).0.wf() && out[k].0.index()
                        == crate::handle::key_index(raw[k].0) && out[k].0.generation()
                        == crate::handle::key_version(raw[k].0) && out[k].1 == raw[k].1,
            decreases raw.len() - i,
        {
            let key: u64 = raw[i].0;
            let value: Value = raw[i].1;
            out.push((Handle::from_ffi(key), value));
            i = i + 1;
        }
        proof {
            assert forall|idx: u32| #[trigger] t.contains_key(idx) implies exists|k: int|
                0 <= k < out.len() && (#[trigger] out[k]).0.index() == idx by {
                let k = choose|k: int|
                    0 <= k < raw.len() && crate::handle::key_index(#[trigger] raw[k].0) == idx;
                assert(out[k].0.index() == idx);
            }
        }
        out
    }

    /// The value of every entry, by ascending arena index.
    pub fn values(&self) -> (r: Vec<Value>)
        ensures
            lists_values(r@, self.table()),
    {
        let entries = self.entries();
        let mut out: Vec<Value> = Vec::new();
        let mut i: usize = 0;
        while i < entries.len()
            invariant
                i <= entries.len(),
                out.len() == i,
                forall|k: int| 0 <= k < i ==> #[trigger] out[k] == entries[k].1,
            decreases entries.len() - i,
        {
            let value: Value = entries[i].1;
            out.push(value);
            i = i + 1;
        }
        assert(lists_handles(entries@, self.table()));
        out
    }

    /// Reads the channel for a scripting caller: the key is taken for an
    /// identifier of the channel's element kind, and what it reads as is
    /// handed back in its foreign representation. A key that was never set
    /// reads as the default. Fails with `TypeMismatch` where the key does
    /// not stand for an identifier.
    pub fn get_lua(&self, key: ForeignValue) -> (r: Result<ForeignValue, ChannelError>)
        ensures
            spec_handle_from_lua(key) is Some ==> r == Ok::<ForeignValue, ChannelError>(
                self.at(spec_handle_from_lua(key).unwrap()).spec_cast_to_lua(),
            ),
            spec_handle_from_lua(key) is None ==> r == Err::<ForeignValue, ChannelError>(
                ChannelError::TypeMismatch,
            ),
    {
        match key_from_lua(self.key_type, key) {
            Ok(h) => Ok(self.value(h).cast_to_lua()),
            Err(e) => Err(e),
        }
    }

    /// What `set_lua` answers: `TypeMismatch` where the key stands for no
    /// identifier or the value has not the shape of the channel's value
    /// type, `NotFound` where the identifier is null or older than what its
    /// slot records, success otherwise.
    pub open spec fn spec_set_lua(&self, key: ForeignValue, value: ForeignValue) -> Result<
        (),
        ChannelError,
    > {
        if spec_handle_from_lua(key) is None || Value::spec_cast_from_lua(
            self.spec_value_type(),
            value,
        ) is None {
            Err(ChannelError::TypeMismatch)
        } else if !self.admits(spec_handle_from_lua(key).unwrap()) {
            Err(ChannelError::NotFound)
        } else {
            Ok(())
        }
    }

    /// Writes the channel for a scripting caller: key and value are turned
    /// into an identifier of the channel's element kind and a value of its
    /// value type, and the identifier's entry is made or overwritten. On any
    /// failure the channel is left as it was.
    pub fn set_lua(&mut self, key: ForeignValue, value: ForeignValue) -> (r: Result<
        (),
        ChannelError,
    >)
        requires
            old(self).wf(),
        ensures
            final(self).wf(),
            final(self).spec_key_type() == old(self).spec_key_type(),
            final(self).spec_value_type() == old(self).spec_value_type(),
            r == old(self).spec_set_lua(key, value),
            r is Ok ==> final(self).table() == table_with(
                old(self).table(),
                spec_handle_from_lua(key).unwrap(),
                Value::spec_cast_from_lua(old(self).spec_value_type(), value).unwrap(),
            ),
            r is Err ==> final(self).table() == old(self).table(),
    {
        let h = match key_from_lua(self.key_type, key) {
            Ok(h) => h,
            Err(e) => {
                return Err(e);
            },
        };
        let v = match Value::cast_from_lua(self.value_type, value) {
            Ok(v) => v,
            Err(e) => {
                return Err(e);
            },
        };
        if self.assign(h, v) {
            Ok(())
        } else {
            Err(ChannelError::NotFound)
        }
    }

    /// What `to_table` lists for `key`: the foreign representation of the
    /// handle it encodes, and of what that handle reads as.
    pub open spec fn spec_table_entry(&self, key: u64) -> (ForeignValue, ForeignValue) {
        (
            spec_handle_to_lua(Handle::spec_from_ffi(key)),
            self.at(Handle::spec_from_ffi(key)).spec_cast_to_lua(),
        )
    }

    /// The contents of the channel for a scripting caller, over the
    /// elements that `keys` encode: one pair per key, in the order given,
    /// of the element's foreign handle and what it reads as. Elements that
    /// were never set read as the default; elements not among `keys` are
    /// left out, set or not.
    pub fn to_table(&self, keys: &Vec<u64>) -> (r: Vec<(ForeignValue, ForeignValue)>)
        ensures
            r.len() == keys.len(),
            forall|i: int| 0 <= i < r.len() ==> #[trigger] r[i] == self.spec_table_entry(keys[i]),
    {
        let mut out: Vec<(ForeignValue, ForeignValue)> = Vec::new();
        let mut i: usize = 0;
        while i < keys.len()
            invariant
                i <= keys.len(),
                out.len() == i,
                forall|k: int|
                    0 <= k < i ==> #[trigger] out[k] == self.spec_table_entry(keys[k]),
            decreases keys.len() - i,
        {
            let h = Handle::from_ffi(keys[i]);
            out.push((handle_to_lua(h), self.value(h).cast_to_lua()));
            i = i + 1;
        }
        out
    }

    /// Writes the channel in bulk for a scripting caller: each of `values`
    /// is written to the element that the key at the same position
    /// encodes, one after the other. Fails with `TypeMismatch`, and writes
    /// nothing, where there are not as many values as keys. Otherwise
    /// stops at the first value of the wrong shape (`TypeMismatch`) or key
    /// that the channel does not admit (`NotFound`); what was written
    /// before stays written.
    pub fn set_from_table(&mut self, keys: &Vec<u64>, values: &Vec<ForeignValue>) -> (r: Result<
        (),
        ChannelError,
    >)
        requires
            old(self).wf(),
        ensures
            final(self).wf(),
            final(self).spec_key_type() == old(self).spec_key_type(),
            final(self).spec_value_type() == old(self).spec_value_type(),
            keys.len() != values.len() ==> r == Err::<(), ChannelError>(ChannelError::TypeMismatch)
                && final(self).table() == old(self).table(),
            keys.len() == values.len() ==> (final(self).table(), r) == bulk_written(
                old(self).table(),
                old(self).spec_value_type(),
                keys@,
                values@,
                keys.len() as nat,
            ),
    {
        if keys.len() != values.len() {
            return Err(ChannelError::TypeMismatch);
        }
        let ghost start = self.table();
        let ghost vty = self.spec_value_type();
        let mut i: usize = 0;
        while i < keys.len()
            invariant
                i <= keys.len(),
                keys.len() == values.len(),
                self.wf(),
                self.spec_value_type() == vty,
                vty == old(self).spec_value_type(),
                start == old(self).table(),
                self.spec_key_type() == old(self).spec_key_type(),
                (self.table(), Ok::<(), ChannelError>(())) == bulk_written(
                    start,
                    vty,
                    keys@,
                    values@,
                    i as nat,
                ),
            decreases keys.len() - i,
        {
            let h = Handle::from_ffi(keys[i]);
            let ghost before = self.table();
            let failed = match Value::cast_from_lua(self.value_type, values[i]) {
                Err(e) => Some(e),
                Ok(v) => if self.assign(h, v) {
                    None
                } else {
                    Some(ChannelError::NotFound)
                },
            };
            proof {
                Handle::lemma_from_ffi(keys[i as int]);
                assert(bulk_written(start, vty, keys@, values@, (i + 1) as nat).0 == self.table());
            }
            match failed {
                Some(e) => {
                    proof {
                        lemma_bulk_written_stops(
                            start,
                            vty,
                            keys@,
                            values@,
                            (i + 1) as nat,
                            keys.len() as nat,
                        );
                    }
                    return Err(e);
                },
                None => {},
            }
            i = i + 1;
        }
        Ok(())
    }

    /// Makes or overwrites the entry of `h`. Answers whether the channel
    /// admits `h`; where it does not, nothing changes.
    fn assign(&mut self, h: Handle, value: Value) -> (done: bool)
        requires
            old(self).wf(),
            value.spec_value_type() == old(self).spec_value_type(),
        ensures
            final(self).wf(),
            final(self).spec_key_type() == old(self).spec_key_type(),
            final(self).spec_value_type() == old(self).spec_value_type(),
            done == old(self).admits(h),
            done ==> final(self).table() == table_with(old(self).table(), h, value),
            !done ==> final(self).table() == old(self).table(),
    {
        let key = h.as_ffi();
        let default = Value::default_of(self.value_type);
        match slots_entry_or_insert(&mut self.inner, key, default) {
            Some(slot) => {
                *slot = value;
                true
            },
            None => false,
        }
    }
}

impl Clone for DynChannel {
    /// A channel of its own with the same tags and the same entries.
    fn clone(&self) -> (c: DynChannel)
        ensures
            c.spec_key_type() == self.spec_key_type(),
            c.spec_value_type() == self.spec_value_type(),
            c.table() == self.table(),
    {
        DynChannel {
            key_type: self.key_type,
            value_type: self.value_type,
            inner: slots_clone(&self.inner),
        }
    }
}

/// Once a bulk write has failed, the pairs after the failure change
/// nothing.
pub proof fn lemma_bulk_written_stops(
    t: Map<u32, (u32, Value)>,
    vty: ChannelValueType,
    keys: Seq<u64>,
    values: Seq<ForeignValue>,
    n: nat,
    m: nat,
)
    requires
        n <= m,
        bulk_written(t, vty, keys, values, n).1 is Err,
    ensures
        bulk_written(t, vty, keys, values, m) == bulk_written(t, vty, keys, values, n),
    decreases m,
{
    if n < m {
        lemma_bulk_written_stops(t, vty, keys, values, n, (m - 1) as nat);
    }
}

/// A channel from identifiers of kind `K` to values of type `V`.
#[derive(Debug)]
pub struct Channel<K: ChannelKey, V: ChannelValue> {
    dynamic: DynChannel,
    _marker: PhantomData<(K, V)>,
}

/// Whether `entries` lists the occupied slots of `t`, each once, by
/// ascending arena index, each as its identifier and its value.
pub open spec fn lists_typed<K: ChannelKey, V: ChannelValue>(
    entries: Seq<(K, V)>,
    t: Map<u32, (u32, Value)>,
) -> bool {
    &&& forall|i: int|
        0 <= i < entries.len() ==> {
            &&& (#[trigger] entries[i]).0.spec_data().wf()
            &&& table_has(t, entries[i].0.spec_data())
            &&& t[entries[i].0.spec_data().index()].1 == entries[i].1.spec_into_value()
        }
    &&& forall|i: int, j: int|
        0 <= i < j < entries.len() ==> (#[trigger] entries[i]).0.spec_data().index() < (
        #[trigger] entries[j]).0.spec_data().index()
    &&& forall|idx: u32| #[trigger]
        t.contains_key(idx) ==> exists|i: int|
            0 <= i < entries.len() && (#[trigger] entries[i]).0.spec_data().index() == idx
}

/// Whether `entries` lists the occupied slots of `t`, each once, by
/// ascending arena index, each as its identifier and its value to be
/// changed in place.
pub open spec fn lists_typed_mut<K: ChannelKey, V: ChannelValue>(
    entries: Seq<(K, &mut V)>,
    t: Map<u32, (u32, Value)>,
) -> bool {
    &&& forall|i: int|
        0 <= i < entries.len() ==> {
            &&& (#[trigger] entries[i]).0.spec_data().wf()
            &&& table_has(t, entries[i].0.spec_data())
            &&& t[entries[i].0.spec_data().index()].1 == (*entries[i].1).spec_into_value()
        }
    &&& forall|i: int, j: int|
        0 <= i < j < entries.len() ==> (#[trigger] entries[i]).0.spec_data().index() < (
        #[trigger] entries[j]).0.spec_data().index()
    &&& forall|idx: u32| #[trigger]
        t.contains_key(idx) ==> exists|i: int|
            0 <= i < entries.len() && (#[trigger] entries[i]).0.spec_data().index() == idx
}

/// What an identifier reads as in a table of values of type `V`: its entry,
/// or the default of `V`.
pub open spec fn typed_at<K: ChannelKey, V: ChannelValue>(t: Map<u32, (u32, Value)>, id: K) -> V {
    if table_has(t, id.spec_data()) {
        V::spec_from_value(t[id.spec_data().index()].1).unwrap()
    } else {
        spec_default_value::<V>()
    }
}

/// The default of the value type `V`: zero in every lane, or `false`.
pub open spec fn spec_default_value<V: ChannelValue>() -> V {
    V::spec_from_value(Value::spec_default_of(V::spec_value_type())).unwrap()
}

/// What `id` reads as in the channel `c`, taken as one of values of type `V`.
pub(crate) fn typed_get<K: ChannelKey, V: ChannelValue>(c: &DynChannel, id: K) -> (v: V)
    requires
        c.wf(),
        c.spec_value_type() == V::spec_value_type(),
    ensures
        v == typed_at::<K, V>(c.table(), id),
        v.spec_into_value() == c.at(id.spec_data()),
{
    let value = c.value(id.data());
    let r = V::from_value(value);
    r.unwrap()
}

/// Every entry of the channel `c`, taken as one from `K` to `V`.
pub(crate) fn typed_iter<K: ChannelKey, V: ChannelValue>(c: &DynChannel) -> (r: Vec<(K, V)>)
    requires
        c.wf(),
        c.spec_value_type() == V::spec_value_type(),
    ensures
        lists_typed(r@, c.table()),
{
    let raw = c.entries();
    let ghost t = c.table();
    let mut out: Vec<(K, V)> = Vec::new();
    let mut i: usize = 0;
    while i < raw.len()
        invariant
            i <= raw.len(),
            out.len() == i,
            lists_handles(raw@, t),
            table_typed(t, V::spec_value_type()),
            forall|k: int|
                0 <= k < i ==> (#[trigger] out[k]).0.spec_data() == raw[k].0
                    && out[k].1.spec_into_value() == raw[k].1,
        decreases raw.len() - i,
    {
        let h: Handle = raw[i].0;
        let value: Value = raw[i].1;
        assert(t.contains_key(raw[i as int].0.index()));
        let v = V::from_value(value).unwrap();
        out.push((K::from_data(h), v));
        i = i + 1;
    }
    proof {
        assert forall|idx: u32| #[trigger] t.contains_key(idx) implies exists|k: int|
            0 <= k < out.len() && (#[trigger] out[k]).0.spec_data().index() == idx by {
            let k = choose|k: int| 0 <= k < raw.len() && (#[trigger] raw[k]).0.index() == idx;
            assert(out[k].0.spec_data().index() == idx);
        }
    }
    out
}

impl<K: ChannelKey, V: ChannelValue> Channel<K, V> {
    /// The channel with its static types forgotten.
    pub closed spec fn erased(&self) -> DynChannel {
        self.dynamic
    }

    /// The occupied slots: arena index to generation and value.
    pub open spec fn table(&self) -> Map<u32, (u32, Value)> {
        self.erased().table()
    }

    /// The tags are those of `K` and `V`, and every stored value is a `V`.
    pub open spec fn wf(&self) -> bool {
        &&& self.erased().wf()
        &&& self.erased().spec_key_type() == K::spec_key_type()
        &&& self.erased().spec_value_type() == V::spec_value_type()
    }

    /// Whether `id` has an entry of its own.
    pub open spec fn has(&self, id: K) -> bool {
        table_has(self.table(), id.spec_data())
    }

    /// What `id` reads as: its entry, or the default.
    pub open spec fn at(&self, id: K) -> V {
        typed_at::<K, V>(self.table(), id)
    }

    /// Whether `id` has an entry or can be given one.
    pub open spec fn admits(&self, id: K) -> bool {
        table_admits(self.table(), id.spec_data())
    }

    /// An empty channel.
    pub fn new() -> (c: Self)
        ensures
            c.wf(),
            c.table() == Map::<u32, (u32, Value)>::empty(),
    {
        Channel { dynamic: DynChannel::new(K::key_type(), V::value_type()), _marker: PhantomData }
    }

    /// The value of `id`: what was stored for it, or the default where
    /// nothing was. Never fails.
    pub fn get(&self, id: K) -> (v: V)
        requires
            self.wf(),
        ensures
            v == self.at(id),
            !self.has(id) ==> v == spec_default_value::<V>(),
            self.has(id) ==> v.spec_into_value() == self.table()[id.spec_data().index()].1,
    {
        typed_get::<K, V>(&self.dynamic, id)
    }

    /// The value of `id`, to be changed in place. An identifier without an
    /// entry is given one that holds the default first. Nothing is handed
    /// out for the null identifier, nor for one older than what its slot
    /// records; the channel is then unchanged.
    pub fn get_mut(&mut self, id: K) -> (r: Option<&mut V>)
        requires
            old(self).wf(),
        ensures
            final(self).wf(),
            r is Some <==> old(self).admits(id),
            r is Some ==> *r.unwrap() == old(self).at(id),
            r is Some ==> final(self).table() == table_with(
                old(self).table(),
                id.spec_data(),
                final(r.unwrap()).spec_into_value(),
            ),
            r is None ==> final(self).table() == old(self).table(),
    {
        let key = id.data().as_ffi();
        let default = Value::default_of(V::value_type());
        proof {
            V::lemma_from_value(default);
        }
        match slots_entry_or_insert(&mut self.dynamic.inner, key, default) {
            Some(slot) => {
                proof {
                    V::lemma_from_value(*slot);
                }
                let r = V::from_value_mut(slot);
                proof {
                    V::lemma_into_value(*r.unwrap());
                    V::lemma_into_value(*final(r.unwrap()));
                }
                r
            },
            None => None,
        }
    }

    /// Stores `val` for `id`: the entry of `id` is overwritten, or made
    /// where `id` had none. Answers whether it did. Only an identifier
    /// that cannot have an entry is refused, the null identifier or one
    /// older than what its slot records; the channel is then left as it
    /// was.
    pub fn set(&mut self, id: K, val: V) -> (done: bool)
        requires
            old(self).wf(),
        ensures
            final(self).wf(),
            done == old(self).admits(id),
            done ==> final(self).table() == table_with(
                old(self).table(),
                id.spec_data(),
                val.spec_into_value(),
            ),
            done ==> final(self).at(id) == val,
            !done ==> final(self).table() == old(self).table(),
    {
        proof {
            V::lemma_into_value(val);
        }
        self.dynamic.assign(id.data(), val.into_value())
    }

    /// Every entry, by ascending arena index. Identifiers that were never
    /// given an entry are not listed.
    pub fn iter(&self) -> (r: Vec<(K, V)>)
        requires
            self.wf(),
        ensures
            lists_typed(r@, self.table()),
    {
        typed_iter::<K, V>(&self.dynamic)
    }

    /// Every entry, by ascending arena index, each with its value to be
    /// changed in place. No entry comes or goes.
    pub fn iter_mut(&mut self) -> (r: Vec<(K, &mut V)>)
        requires
            old(self).wf(),
        ensures
            final(self).wf(),
            lists_typed_mut(r@, old(self).table()),
            final(self).table().dom() == old(self).table().dom(),
            forall|i: int|
                0 <= i < r.len() ==> final(self).table()[(#[trigger] r[i]).0.spec_data().index()]
                    == (r[i].0.spec_data().generation(), final(r[i].1).spec_into_value()),
    {
        let ghost t = self.table();
        let mut raw = slots_iter_mut(&mut self.dynamic.inner);
        let ghost raw0 = raw@;
        let ghost n = raw0.len() as int;
        // Taken from the back, the entries come out by descending index.
        let mut descending: Vec<(K, &mut V)> = Vec::new();
        while raw.len() > 0
            invariant
                n == raw0.len(),
                raw.len() + descending.len() == n,
                forall|k: int| 0 <= k < raw.len() ==> raw[k] == raw0[k],
                lists_mut(raw0, t),
                table_typed(t, V::spec_value_type()),
                forall|k: int|
                    0 <= k < descending.len() ==> {
                        &&& (#[trigger] descending[k]).0.spec_data() == Handle::spec_from_ffi(
                            raw0[n - 1 - k].0,
                        )
                        &&& (*descending[k].1).spec_into_value() == *raw0[n - 1 - k].1
                        &&& *final(raw0[n - 1 - k].1) == final(descending[k].1).spec_into_value()
                    },
            decreases raw.len(),
        {
            let ghost last = raw.len() - 1;
            let entry = raw.pop().unwrap();
            assert(entry == raw0[last]);
            assert(t.contains_key(crate::handle::key_index(raw0[last].0)));
            let typed = V::from_value_mut(entry.1);
            descending.push((K::from_data(Handle::from_ffi(entry.0)), typed.unwrap()));
        }
        // Taken from the back once more, they are by ascending index again.
        let ghost descending0 = descending@;
        let mut out: Vec<(K, &mut V)> = Vec::new();
        while descending.len() > 0
            invariant
                n == descending0.len(),
                descending.len() + out.len() == n,
                forall|k: int| 0 <= k < descending.len() ==> descending[k] == descending0[k],
                forall|k: int| 0 <= k < out.len() ==> #[trigger] out[k] == descending0[n - 1 - k],
            decreases descending.len(),
        {
            let entry = descending.pop().unwrap();
            out.push(entry);
        }
        proof {
            assert forall|i: int| 0 <= i < out.len() implies {
                &&& (#[trigger] out[i]).0.spec_data().wf()
                &&& out[i].0.spec_data().index() == crate::handle::key_index(raw0[i].0)
                &&& out[i].0.spec_data().generation() == crate::handle::key_version(raw0[i].0)
                &&& (*out[i].1).spec_into_value() == *raw0[i].1
                &&& *final(raw0[i].1) == final(out[i].1).spec_into_value()
            } by {
                assert(out[i] == descending0[n - 1 - i]);
                Handle::lemma_from_ffi(raw0[i].0);
            }
            assert forall|i: int| 0 <= i < n implies final((#[trigger] raw0[i]).1).spec_value_type()
                == V::spec_value_type() by {
                assert(out[i].0.spec_data().wf());
                V::lemma_into_value(*final(out[i].1));
            }
            assert forall|idx: u32| #[trigger] t.contains_key(idx) implies exists|i: int|
                0 <= i < out.len() && (#[trigger] out[i]).0.spec_data().index() == idx by {
                let i = choose|i: int|
                    0 <= i < raw0.len() && crate::handle::key_index(#[trigger] raw0[i].0) == idx;
                assert(out[i].0.spec_data().index() == idx);
            }
        }
        out
    }

    /// Forgets the static types.
    pub fn into_dyn(self) -> (d: DynChannel)
        ensures
            d == self.erased(),
    {
        self.dynamic
    }

    /// Takes `d` for a channel from `K` to `V`; `TypeMismatch` where its
    /// tags say otherwise.
    pub fn from_dyn(d: DynChannel) -> (r: Result<Self, ChannelError>)
        ensures
            d.spec_key_type() == K::spec_key_type() && d.spec_value_type() == V::spec_value_type()
                ==> r is Ok && r.unwrap().erased() == d,
            !(d.spec_key_type() == K::spec_key_type() && d.spec_value_type()
                == V::spec_value_type()) ==> r is Err && r->Err_0 == ChannelError::TypeMismatch,
    {
        if d.key_type() == K::key_type() && d.value_type() == V::value_type() {
            Ok(Channel { dynamic: d, _marker: PhantomData })
        } else {
            Err(ChannelError::TypeMismatch)
        }
    }
}

impl<K: ChannelKey, V: ChannelValue> Clone for Channel<K, V> {
    /// A channel of its own with the same entries.
    fn clone(&self) -> (c: Self)
        ensures
            c.table() == self.table(),
            self.wf() ==> c.wf(),
    {
        Channel { dynamic: self.dynamic.clone(), _marker: PhantomData }
    }
}

impl<K: ChannelKey, V: ChannelValue> Default for Channel<K, V> {
    fn default() -> (c: Self)
        ensures
            c.wf(),
            c.table() == Map::<u32, (u32, Value)>::empty(),
    {
        Channel::new()
    }
}

} // verus!
