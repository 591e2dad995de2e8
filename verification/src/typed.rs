//! The statically typed face of groups and borrows: identifiers, guards and
//! groups that carry the element kind and the value type in their types, so
//! that a channel from `K` to `V` cannot be taken for any other.

use crate::borrow::BorrowState;
use crate::cell::ChannelCell;
use crate::channel::{
    lists_typed, spec_default_value, table_has, typed_at, Channel, DynChannel,
};
use crate::group::{lists_channels, DynChannelGroup, DynReadGuard, DynWriteGuard};
use crate::ids::{ChannelId, ChannelKey};
use crate::names::has_key;
use crate::tags::ChannelError;
use crate::values::{ChannelValue, Value};
use core::marker::PhantomData;
use vstd::prelude::*;

verus! {

/// A channel from `K` to `V` that is borrowed for reading.
#[derive(Debug)]
pub struct ChannelRef<'a, K: ChannelKey, V: ChannelValue> {
    dynamic: &'a DynChannel,
    _marker: PhantomData<(K, V)>,
}

impl<'a, K: ChannelKey, V: ChannelValue> ChannelRef<'a, K, V> {
    /// The channel with its static types forgotten.
    pub closed spec fn erased(&self) -> DynChannel {
        *self.dynamic
    }

    /// The occupied slots: arena index to generation and value.
    pub open spec fn table(&self) -> Map<u32, (u32, Value)> {
        self.erased().table()
    }

    /// The tags are those of `K` and `V`, and every stored value is a `V`.
    pub open spec fn wf(&self) -> bool {
        &&& self.erased().wf()
        &&& self.erased().spec_key_type() == K::spec_key_type()
        &&& self.erased().spec_value_type() == V::spec_value_type()
    }

    /// Whether `id` has an entry of its own.
    pub open spec fn has(&self, id: K) -> bool {
        table_has(self.table(), id.spec_data())
    }

    /// What `id` reads as: its entry, or the default.
    pub open spec fn at(&self, id: K) -> V {
        typed_at::<K, V>(self.table(), id)
    }

    /// Takes a borrowed channel for one from `K` to `V`; `TypeMismatch`
    /// where its tags say otherwise.
    pub fn new(dynamic: &'a DynChannel) -> (r: Result<Self, ChannelError>)
        ensures
            dynamic.spec_key_type() == K::spec_key_type() && dynamic.spec_value_type()
                == V::spec_value_type() ==> r is Ok && r.unwrap().erased() == *dynamic,
            !(dynamic.spec_key_type() == K::spec_key_type() && dynamic.spec_value_type()
                == V::spec_value_type()) ==> r is Err && r->Err_0 == ChannelError::TypeMismatch,
    {
        if dynamic.key_type() == K::key_type() && dynamic.value_type() == V::value_type() {
            Ok(ChannelRef { dynamic, _marker: PhantomData })
        } else {
            Err(ChannelError::TypeMismatch)
        }
    }

    /// The value of `id`: what was stored for it, or the default where
    /// nothing was. Never fails.
    pub fn get(&self, id: K) -> (v: V)
        requires
            self.wf(),
        ensures
            v == self.at(id),
            !self.has(id) ==> v == spec_default_value::<V>(),
            self.has(id) ==> v.spec_into_value() == self.table()[id.spec_data().index()].1,
    {
        crate::channel::typed_get::<K, V>(self.dynamic, id)
    }

    /// Every entry, by ascending arena index.
    pub fn iter(&self) -> (r: Vec<(K, V)>)
        requires
            self.wf(),
        ensures
            lists_typed(r@, self.table()),
    {
        crate::channel::typed_iter::<K, V>(self.dynamic)
    }
}

/// A reader's hold on a channel from `K` to `V`.
#[derive(Debug)]
pub struct ReadGuard<K: ChannelKey, V: ChannelValue> {
    dynamic: DynReadGuard,
    _marker: PhantomData<(K, V)>,
}

impl<K: ChannelKey, V: ChannelValue> ReadGuard<K, V> {
    /// The guard with its static types forgotten.
    pub closed spec fn erased(&self) -> DynReadGuard {
        self.dynamic
    }

    /// The guard's tags are those of `K` and `V`. Every guard that
    /// executable code holds is such.
    #[verifier::type_invariant]
    pub open spec fn wf(&self) -> bool {
        &&& self.erased().spec_key_type() == K::spec_key_type()
        &&& self.erased().spec_value_type() == V::spec_value_type()
    }

    /// The channel held.
    pub open spec fn spec_id(&self) -> ChannelId<K, V> {
        ChannelId::spec_new(self.erased().spec_id())
    }

    pub fn id(&self) -> (id: ChannelId<K, V>)
        ensures
            id == self.spec_id(),
    {
        ChannelId::new(self.dynamic.id())
    }

    /// Takes an untyped guard for one of a channel from `K` to `V`;
    /// `TypeMismatch` where its tags say otherwise.
    pub fn from_dyn(dynamic: DynReadGuard) -> (r: Result<Self, ChannelError>)
        ensures
            dynamic.spec_key_type() == K::spec_key_type() && dynamic.spec_value_type()
                == V::spec_value_type() ==> r is Ok && r.unwrap().erased() == dynamic,
            !(dynamic.spec_key_type() == K::spec_key_type() && dynamic.spec_value_type()
                == V::spec_value_type()) ==> r is Err && r->Err_0 == ChannelError::TypeMismatch,
            r is Ok ==> r.unwrap().wf(),
    {
        if dynamic.key_type() == K::key_type() && dynamic.value_type() == V::value_type() {
            Ok(ReadGuard { dynamic, _marker: PhantomData })
        } else {
            Err(ChannelError::TypeMismatch)
        }
    }

    /// The guard with its static types forgotten, for reading.
    pub fn as_dyn(&self) -> (d: &DynReadGuard)
        ensures
            *d == self.erased(),
            self.wf(),
    {
        proof {
            use_type_invariant(self);
        }
        &self.dynamic
    }

    /// Forgets the static types.
    pub fn into_dyn(self) -> (d: DynReadGuard)
        ensures
            d == self.erased(),
            self.wf(),
    {
        proof {
            use_type_invariant(&self);
        }
        self.dynamic
    }
}

/// The writer's hold on a channel from `K` to `V`: the channel itself, out
/// of its group until it is handed back.
#[derive(Debug)]
pub struct WriteGuard<K: ChannelKey, V: ChannelValue> {
    id: ChannelId<K, V>,
    channel: Channel<K, V>,
}

impl<K: ChannelKey, V: ChannelValue> WriteGuard<K, V> {
    /// The channel held.
    pub closed spec fn spec_id(&self) -> ChannelId<K, V> {
        self.id
    }

    /// The channel itself, as the writer has it now.
    pub closed spec fn spec_channel(&self) -> Channel<K, V> {
        self.channel
    }

    /// The channel is well formed.
    pub open spec fn wf(&self) -> bool {
        self.spec_channel().wf()
    }

    /// The guard with its static types forgotten.
    pub open spec fn erased(&self) -> DynWriteGuard {
        DynWriteGuard::spec_of(
            K::spec_key_type(),
            V::spec_value_type(),
            self.spec_id().spec_raw(),
            self.spec_channel().erased(),
        )
    }

    pub fn id(&self) -> (id: ChannelId<K, V>)
        ensures
            id == self.spec_id(),
    {
        self.id
    }

    /// The channel, for reading.
    pub fn channel(&self) -> (c: &Channel<K, V>)
        ensures
            *c == self.spec_channel(),
    {
        &self.channel
    }

    /// The channel, for writing.
    pub fn channel_mut(&mut self) -> (c: &mut Channel<K, V>)
        ensures
            *c == old(self).spec_channel(),
            final(self).spec_channel() == *final(c),
            final(self).spec_id() == old(self).spec_id(),
    {
        &mut self.channel
    }

    /// Takes an untyped guard for one of a channel from `K` to `V`;
    /// `TypeMismatch` where the tags of its channel say otherwise.
    pub fn from_dyn(guard: DynWriteGuard) -> (r: Result<Self, ChannelError>)
        ensures
            guard.spec_channel().spec_key_type() == K::spec_key_type()
                && guard.spec_channel().spec_value_type() == V::spec_value_type() ==> r is Ok
                && r.unwrap().spec_id().spec_raw() == guard.spec_id()
                && r.unwrap().spec_channel().erased() == guard.spec_channel(),
            !(guard.spec_channel().spec_key_type() == K::spec_key_type()
                && guard.spec_channel().spec_value_type() == V::spec_value_type()) ==> r is Err
                && r->Err_0 == ChannelError::TypeMismatch,
    {
        let id = ChannelId::new(guard.id());
        match Channel::from_dyn(guard.into_channel()) {
            Ok(channel) => Ok(WriteGuard { id, channel }),
            Err(e) => Err(e),
        }
    }

    /// Forgets the static types.
    pub fn into_dyn(self) -> (d: DynWriteGuard)
        ensures
            d == self.erased(),
            self.wf() ==> d.wf(),
    {
        let ghost erased = self.erased();
        proof {
            erased.lemma_spec_of();
        }
        DynWriteGuard::from_parts(
            K::key_type(),
            V::value_type(),
            self.id.raw(),
            self.channel.into_dyn(),
        )
    }
}

/// All the channels from `K` to `V` of one mesh, each under a name of its
/// own.
#[derive(Debug)]
pub struct ChannelGroup<K: ChannelKey, V: ChannelValue> {
    dynamic: DynChannelGroup,
    _marker: PhantomData<(K, V)>,
}

impl<K: ChannelKey, V: ChannelValue> ChannelGroup<K, V> {
    /// The group with its static types forgotten.
    pub closed spec fn erased(&self) -> DynChannelGroup {
        self.dynamic
    }

    /// The group is well formed and its tags are those of `K` and `V`.
    pub open spec fn wf(&self) -> bool {
        &&& self.erased().wf()
        &&& self.erased().spec_key_type() == K::spec_key_type()
        &&& self.erased().spec_value_type() == V::spec_value_type()
    }

    /// The registered names, each with the key of its channel.
    pub open spec fn names(&self) -> Map<Seq<char>, u64> {
        self.erased().names()
    }

    /// The channels, each in its cell under its key.
    pub open spec fn cells(&self) -> Map<u64, ChannelCell> {
        self.erased().cells()
    }

    /// A group without channels.
    pub fn new() -> (g: Self)
        ensures
            g.wf(),
            g.names() == Map::<Seq<char>, u64>::empty(),
            g.cells() == Map::<u64, ChannelCell>::empty(),
    {
        ChannelGroup {
            dynamic: DynChannelGroup::new(K::key_type(), V::value_type()),
            _marker: PhantomData,
        }
    }

    /// The number of channels.
    pub fn len(&self) -> (n: usize)
        ensures
            n == self.erased().spec_len(),
    {
        self.dynamic.len()
    }

    /// The identifier of the channel registered as `name`; a name not yet
    /// registered is registered for a new, empty channel first. Asking
    /// twice yields the same identifier.
    pub fn ensure_channel(&mut self, name: &str) -> (id: ChannelId<K, V>)
        requires
            old(self).wf(),
            old(self).erased().can_ensure(name@),
        ensures
            final(self).wf(),
            id == ChannelId::<K, V>::spec_new(id.spec_raw()),
            old(self).erased().ensure_post(name@, id.spec_raw(), &final(self).erased()),
    {
        ChannelId::new(self.dynamic.ensure_channel_dyn(name))
    }

    /// Registers `name` for a new, empty channel. Fails with
    /// `AlreadyExists`, and changes nothing, exactly where the name is
    /// registered already.
    pub fn create_channel(&mut self, name: &str) -> (r: Result<ChannelId<K, V>, ChannelError>)
        requires
            old(self).wf(),
            old(self).erased().can_ensure(name@),
        ensures
            final(self).wf(),
            r is Ok <==> !old(self).names().contains_key(name@),
            r is Err ==> r->Err_0 == ChannelError::AlreadyExists && old(self).erased().same_as(
                &final(self).erased(),
            ),
            r is Ok ==> r.unwrap() == ChannelId::<K, V>::spec_new(r.unwrap().spec_raw()),
            r is Ok ==> old(self).erased().ensure_post(
                name@,
                r.unwrap().spec_raw(),
                &final(self).erased(),
            ),
    {
        match self.dynamic.create_channel_dyn(name) {
            Ok(raw) => Ok(ChannelId::new(raw)),
            Err(e) => Err(e),
        }
    }

    /// Takes the channel `id` out of the group and drops its name. Fails
    /// with `NotFound` where `id` identifies no channel of the group, with
    /// `BorrowConflict` where the channel is held; the group is then
    /// unchanged.
    pub fn remove_channel(&mut self, id: ChannelId<K, V>) -> (r: Result<
        Channel<K, V>,
        ChannelError,
    >)
        requires
            old(self).wf(),
        ensures
            final(self).wf(),
            r is Ok <==> old(self).erased().spec_remove(id.spec_raw()) is Ok,
            r is Err ==> r->Err_0 == old(self).erased().spec_remove(id.spec_raw())->Err_0
                && old(self).erased().same_as(&final(self).erased()),
            r is Ok ==> r.unwrap().wf() && Some(r.unwrap().erased()) == old(self).cells()[id.spec_key()].content()
                && old(self).erased().shrunk_by(&final(self).erased(), id.spec_raw()),
    {
        match self.dynamic.remove_channel_dyn(id.raw()) {
            Ok(channel) => Channel::from_dyn(channel),
            Err(e) => Err(e),
        }
    }

    /// The identifier of the channel registered as `name`, if there is one.
    pub fn channel_id(&self, name: &str) -> (r: Option<ChannelId<K, V>>)
        ensures
            self.names().contains_key(name@) ==> r == Some(
                ChannelId::<K, V>::spec_new(
                    crate::ids::RawChannelId::spec_from_key(self.names()[name@]),
                ),
            ),
            self.names().contains_key(name@) ==> r is Some && r.unwrap().spec_raw()
                == crate::ids::RawChannelId::spec_from_key(self.names()[name@]),
            !self.names().contains_key(name@) ==> r is None,
    {
        match self.dynamic.channel_id_dyn(name) {
            Some(raw) => Some(ChannelId::new(raw)),
            None => None,
        }
    }

    /// The name under which the channel `id` is registered, if it is.
    pub fn channel_name(&self, id: ChannelId<K, V>) -> (r: Option<&str>)
        ensures
            r is Some <==> has_key(self.names(), id.spec_key()),
            r is Some ==> self.names().contains_key(r.unwrap()@) && self.names()[r.unwrap()@]
                == id.spec_key(),
    {
        match self.dynamic.channel_name_dyn(id.raw()) {
            Some(name) => Some(name.as_str()),
            None => None,
        }
    }

    /// Lets a reader in on the channel `id`. Fails with `NotFound` where
    /// `id` identifies no channel of the group, with `BorrowConflict` where
    /// a writer holds the channel; the group is then unchanged.
    pub fn read_channel(&mut self, id: ChannelId<K, V>) -> (r: Result<ReadGuard<K, V>, ChannelError>)
        requires
            old(self).wf(),
        ensures
            final(self).wf(),
            r is Ok <==> old(self).erased().spec_read(id.spec_raw()) is Ok,
            r is Err ==> r->Err_0 == old(self).erased().spec_read(id.spec_raw())->Err_0
                && old(self).erased().same_as(&final(self).erased()),
            r is Ok ==> r.unwrap().wf() && r.unwrap().erased().spec_id() == id.spec_raw(),
            r is Ok ==> old(self).erased().moved_to(
                &final(self).erased(),
                id.spec_raw(),
                old(self).cells()[id.spec_key()].content(),
                old(self).erased().state(id.spec_raw()).spec_acquire_read().unwrap(),
            ),
    {
        match self.dynamic.read_channel_dyn(id.raw()) {
            Ok(guard) => ReadGuard::from_dyn(guard),
            Err(e) => Err(e),
        }
    }

    /// Lets the writer in on the channel `id` and hands it the channel.
    /// Fails with `NotFound` where `id` identifies no channel of the group,
    /// with `BorrowConflict` where the channel is held by anyone; the group
    /// is then unchanged.
    pub fn write_channel(&mut self, id: ChannelId<K, V>) -> (r: Result<
        WriteGuard<K, V>,
        ChannelError,
    >)
        requires
            old(self).wf(),
        ensures
            final(self).wf(),
            r is Ok <==> old(self).erased().spec_write(id.spec_raw()) is Ok,
            r is Err ==> r->Err_0 == old(self).erased().spec_write(id.spec_raw())->Err_0
                && old(self).erased().same_as(&final(self).erased()),
            r is Ok ==> r.unwrap().wf() && r.unwrap().spec_id().spec_raw() == id.spec_raw(),
            r is Ok ==> Some(r.unwrap().spec_channel().erased()) == old(self).cells()[id.spec_key()].content(),
            r is Ok ==> old(self).erased().moved_to(
                &final(self).erased(),
                id.spec_raw(),
                None,
                BorrowState::Exclusive,
            ),
    {
        match self.dynamic.write_channel_dyn(id.raw()) {
            Ok(guard) => {
                let typed = WriteGuard::from_dyn(guard);
                typed
            },
            Err(e) => Err(e),
        }
    }

    /// Lets the reader behind `guard` go. Fails with `NotFound` where the
    /// guard is of no channel of this group, with `BorrowConflict` where
    /// the channel has no reader; the group is then unchanged.
    pub fn release_read(&mut self, guard: ReadGuard<K, V>) -> (r: Result<(), ChannelError>)
        requires
            old(self).wf(),
        ensures
            final(self).wf(),
            r == old(self).erased().spec_release_read(
                K::spec_key_type(),
                V::spec_value_type(),
                guard.erased().spec_id(),
            ),
            r is Err ==> old(self).erased().same_as(&final(self).erased()),
            r is Ok ==> old(self).erased().moved_to(
                &final(self).erased(),
                guard.erased().spec_id(),
                old(self).cells()[guard.erased().spec_id().spec_key()].content(),
                old(self).erased().state(guard.erased().spec_id()).spec_release_read().unwrap(),
            ),
    {
        self.dynamic.release_read_dyn(guard.into_dyn())
    }

    /// Takes the channel back from the writer behind `guard`, as the
    /// writer left it, and frees it. Fails with `NotFound` where the guard
    /// is of no channel of this group, with `BorrowConflict` where the
    /// channel has no writer; the group is then unchanged and the guard's
    /// channel is dropped.
    pub fn release_write(&mut self, guard: WriteGuard<K, V>) -> (r: Result<(), ChannelError>)
        requires
            old(self).wf(),
            guard.wf(),
        ensures
            final(self).wf(),
            r == old(self).erased().spec_release_write(
                K::spec_key_type(),
                V::spec_value_type(),
                guard.spec_id().spec_raw(),
            ),
            r is Err ==> old(self).erased().same_as(&final(self).erased()),
            r is Ok ==> old(self).erased().moved_to(
                &final(self).erased(),
                guard.spec_id().spec_raw(),
                Some(guard.spec_channel().erased()),
                BorrowState::Free,
            ),
    {
        proof {
            guard.erased().lemma_spec_of();
        }
        self.dynamic.release_write_dyn(guard.into_dyn())
    }

    /// The channel behind a reader's guard, for reading. Fails with
    /// `NotFound` where the guard is of no channel of this group, with
    /// `BorrowConflict` where the channel has no reader.
    pub fn channel<'a>(&'a self, guard: &ReadGuard<K, V>) -> (r: Result<
        ChannelRef<'a, K, V>,
        ChannelError,
    >)
        requires
            self.wf(),
        ensures
            r is Ok <==> self.erased().spec_peek(
                K::spec_key_type(),
                V::spec_value_type(),
                guard.erased().spec_id(),
            ) is Ok,
            r is Err ==> r->Err_0 == self.erased().spec_peek(
                K::spec_key_type(),
                V::spec_value_type(),
                guard.erased().spec_id(),
            )->Err_0,
            r is Ok ==> r.unwrap().wf() && Some(r.unwrap().erased()) == self.cells()[guard.erased().spec_id().spec_key()].content(),
    {
        match self.dynamic.channel_dyn(guard.as_dyn()) {
            Ok(channel) => ChannelRef::new(channel),
            Err(e) => Err(e),
        }
    }

    /// A group of its own with the same names and, under the same
    /// identifiers, copies of the channels, none of them held. Fails with
    /// `BorrowConflict` exactly where a writer holds some channel of the
    /// group: that channel is not here to be copied.
    pub fn try_clone(&self) -> (r: Result<Self, ChannelError>)
        requires
            self.wf(),
        ensures
            r is Err <==> self.erased().has_writer(),
            r is Err ==> r->Err_0 == ChannelError::BorrowConflict,
            r is Ok ==> r.unwrap().wf() && self.erased().copied_to(&r.unwrap().erased()),
    {
        match self.dynamic.try_clone() {
            Ok(dynamic) => Ok(ChannelGroup { dynamic, _marker: PhantomData }),
            Err(e) => Err(e),
        }
    }

    /// A snapshot of the group: every channel by name, with the values of
    /// its entries. Fails with `BorrowConflict` exactly where a writer
    /// holds some channel of the group.
    pub fn introspect(&self) -> (r: Result<Vec<(String, Vec<Value>)>, ChannelError>)
        requires
            self.wf(),
        ensures
            r is Err <==> self.erased().has_writer(),
            r is Err ==> r->Err_0 == ChannelError::BorrowConflict,
            r is Ok ==> lists_channels(r.unwrap()@, self.names(), self.cells()),
    {
        self.dynamic.introspect()
    }
}

impl<K: ChannelKey, V: ChannelValue> Default for ChannelGroup<K, V> {
    fn default() -> (g: Self)
        ensures
            g.wf(),
            g.names() == Map::<Seq<char>, u64>::empty(),
            g.cells() == Map::<u64, ChannelCell>::empty(),
    {
        ChannelGroup::new()
    }
}

} // verus!
