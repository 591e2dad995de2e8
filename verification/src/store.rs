//! The channel store of a mesh: one group for every pairing of element kind
//! and value type in use, made when the pairing is first asked for. Callers
//! that know the types statically and callers that know only the tags reach
//! the same groups.

use crate::arena::CELL_LIMIT;
use crate::borrow::BorrowState;
use crate::cell::ChannelCell;
use crate::channel::{Channel, DynChannel};
use crate::group::{ensured, lists_channels, DynChannelGroup, DynReadGuard, DynWriteGuard};
use crate::ids::{ChannelId, ChannelKey, RawChannelId, VertexId};
use crate::names::has_key;
use crate::tags::{
    group_code, spec_group_code, ChannelError, ChannelKeyType, ChannelValueType, GROUP_COUNT,
};
use crate::typed::{ChannelRef, ReadGuard, WriteGuard};
use crate::values::{ChannelValue, Value, Vec3};
use std::collections::HashMap;
use vstd::prelude::*;

verus! {

/// The channels of a mesh, grouped by element kind and value type.
#[derive(Debug)]
pub struct MeshChannels {
    channels: HashMap<u64, DynChannelGroup>,
}

/// Whether `listing` names every group of a store once, by ascending code
/// of its pairing, each with a listing of its channels.
pub open spec fn lists_groups(
    listing: Seq<((ChannelKeyType, ChannelValueType), Vec<(String, Vec<Value>)>)>,
    groups: Map<u64, DynChannelGroup>,
) -> bool {
    &&& forall|i: int|
        0 <= i < listing.len() ==> {
            &&& groups.contains_key(
                spec_group_code((#[trigger] listing[i]).0.0, listing[i].0.1),
            )
            &&& lists_channels(
                listing[i].1@,
                groups[spec_group_code(listing[i].0.0, listing[i].0.1)].names(),
                groups[spec_group_code(listing[i].0.0, listing[i].0.1)].cells(),
            )
        }
    &&& forall|i: int, j: int|
        0 <= i < j < listing.len() ==> spec_group_code(
            (#[trigger] listing[i]).0.0,
            listing[i].0.1,
        ) < spec_group_code((#[trigger] listing[j]).0.0, listing[j].0.1)
    &&& forall|code: u64| #[trigger]
        groups.contains_key(code) ==> exists|i: int|
            0 <= i < listing.len() && spec_group_code((#[trigger] listing[i]).0.0, listing[i].0.1)
                == code
}

impl MeshChannels {
    /// The groups made so far, each under the code of its pairing.
    pub closed spec fn groups(&self) -> Map<u64, DynChannelGroup> {
        self.channels@
    }

    /// Every group is well formed and sits under the code of its own kind
    /// and type: the group found for a pairing is the group of that
    /// pairing, never of another.
    pub open spec fn wf(&self) -> bool {
        forall|code: u64| #[trigger]
            self.groups().contains_key(code) ==> {
                &&& self.groups()[code].wf()
                &&& spec_group_code(
                    self.groups()[code].spec_key_type(),
                    self.groups()[code].spec_value_type(),
                ) == code
            }
    }

    /// Whether the group of the pairing has been made.
    pub open spec fn has_group(&self, kty: ChannelKeyType, vty: ChannelValueType) -> bool {
        self.groups().contains_key(spec_group_code(kty, vty))
    }

    /// The group of the pairing.
    pub open spec fn group(&self, kty: ChannelKeyType, vty: ChannelValueType) -> DynChannelGroup {
        self.groups()[spec_group_code(kty, vty)]
    }

    /// The names registered for the pairing; none while its group is not
    /// made.
    pub open spec fn names_of(&self, kty: ChannelKeyType, vty: ChannelValueType) -> Map<
        Seq<char>,
        u64,
    > {
        if self.has_group(kty, vty) {
            self.group(kty, vty).names()
        } else {
            Map::empty()
        }
    }

    /// The channels of the pairing; none while its group is not made.
    pub open spec fn cells_of(&self, kty: ChannelKeyType, vty: ChannelValueType) -> Map<
        u64,
        ChannelCell,
    > {
        if self.has_group(kty, vty) {
            self.group(kty, vty).cells()
        } else {
            Map::empty()
        }
    }

    /// The version that each slot of the pairing's arena records; none
    /// while the group is not made.
    pub open spec fn versions_of(&self, kty: ChannelKeyType, vty: ChannelValueType) -> Map<
        u32,
        u32,
    > {
        if self.has_group(kty, vty) {
            self.group(kty, vty).versions()
        } else {
            Map::empty()
        }
    }

    /// Whether the group of the pairing can take one more channel.
    pub open spec fn has_room(&self, kty: ChannelKeyType, vty: ChannelValueType) -> bool {
        self.has_group(kty, vty) ==> self.group(kty, vty).spec_len() < CELL_LIMIT
    }

    /// Whether `name` can be ensured in the pairing: it is registered
    /// there already, or the group has room for one more channel.
    pub open spec fn can_ensure(
        &self,
        kty: ChannelKeyType,
        vty: ChannelValueType,
        name: Seq<char>,
    ) -> bool {
        self.names_of(kty, vty).contains_key(name) || self.has_room(kty, vty)
    }

    /// Whether `after` differs from this store at most in the group of the
    /// pairing, which `after` has.
    pub open spec fn differs_at(
        &self,
        after: &MeshChannels,
        kty: ChannelKeyType,
        vty: ChannelValueType,
    ) -> bool {
        &&& after.has_group(kty, vty)
        &&& after.groups().dom() == self.groups().dom().insert(spec_group_code(kty, vty))
        &&& forall|code: u64|
            code != spec_group_code(kty, vty) && #[trigger] self.groups().contains_key(code)
                ==> after.groups()[code] == self.groups()[code]
    }

    /// Whether `after` has the same groups, each with the same names and
    /// the same channels in the same states.
    pub open spec fn same_as(&self, after: &MeshChannels) -> bool {
        &&& after.groups().dom() == self.groups().dom()
        &&& forall|code: u64| #[trigger]
            self.groups().contains_key(code) ==> self.groups()[code].same_as(
                &after.groups()[code],
            )
    }

    /// A store without groups.
    pub fn new() -> (s: MeshChannels)
        ensures
            s.wf(),
            s.groups() == Map::<u64, DynChannelGroup>::empty(),
    {
        MeshChannels { channels: HashMap::new() }
    }

    /// The tags of the pairing of `K` and `V`.
    pub fn key_of<K: ChannelKey, V: ChannelValue>() -> (r: (ChannelKeyType, ChannelValueType))
        ensures
            r.0 == K::spec_key_type(),
            r.1 == V::spec_value_type(),
    {
        (K::key_type(), V::value_type())
    }

    /// Takes the group of the pairing out of the table, or makes it.
    fn take_or_default(&mut self, kty: ChannelKeyType, vty: ChannelValueType) -> (g:
        DynChannelGroup)
        requires
            old(self).wf(),
        ensures
            final(self).wf(),
            final(self).groups() == old(self).groups().remove(spec_group_code(kty, vty)),
            g.wf(),
            g.spec_key_type() == kty,
            g.spec_value_type() == vty,
            old(self).has_group(kty, vty) ==> g == old(self).group(kty, vty),
            g.names() == old(self).names_of(kty, vty),
            g.cells() == old(self).cells_of(kty, vty),
            g.versions() == old(self).versions_of(kty, vty),
    {
        broadcast use vstd::std_specs::hash::group_hash_axioms;

        let code = group_code(kty, vty);
        match self.channels.remove(&code) {
            Some(g) => {
                proof {
                    crate::tags::group_code_is_injective(
                        g.spec_key_type(),
                        g.spec_value_type(),
                        kty,
                        vty,
                    );
                }
                g
            },
            None => DynChannelGroup::new(kty, vty),
        }
    }

    /// Takes the group of the pairing out of the table, if it is there.
    fn take(&mut self, kty: ChannelKeyType, vty: ChannelValueType) -> (r: Option<DynChannelGroup>)
        requires
            old(self).wf(),
        ensures
            final(self).wf(),
            final(self).groups() == old(self).groups().remove(spec_group_code(kty, vty)),
            r is Some <==> old(self).has_group(kty, vty),
            r is Some ==> r.unwrap() == old(self).group(kty, vty) && r.unwrap().wf()
                && r.unwrap().spec_key_type() == kty && r.unwrap().spec_value_type() == vty,
    {
        broadcast use vstd::std_specs::hash::group_hash_axioms;

        let code = group_code(kty, vty);
        let r = self.channels.remove(&code);
        proof {
            if r is Some {
                crate::tags::group_code_is_injective(
                    r.unwrap().spec_key_type(),
                    r.unwrap().spec_value_type(),
                    kty,
                    vty,
                );
            }
        }
        r
    }

    /// Puts a group into the table under the code of its pairing.
    fn put(&mut self, g: DynChannelGroup)
        requires
            old(self).wf(),
            g.wf(),
        ensures
            final(self).wf(),
            final(self).groups() == old(self).groups().insert(
                spec_group_code(g.spec_key_type(), g.spec_value_type()),
                g,
            ),
    {
        broadcast use vstd::std_specs::hash::group_hash_axioms;

        let code = group_code(g.key_type(), g.value_type());
        self.channels.insert(code, g);
    }

    /// Whether the group of the pairing can take one more channel.
    pub fn room_for(&self, kty: ChannelKeyType, vty: ChannelValueType) -> (b: bool)
        ensures
            b == self.has_room(kty, vty),
    {
        broadcast use vstd::std_specs::hash::group_hash_axioms;

        let code = group_code(kty, vty);
        match self.channels.get(&code) {
            Some(g) => g.has_room(),
            None => true,
        }
    }

    /// What ensuring `name` in the pairing makes of the store: the group of
    /// the pairing exists afterwards, its names and channels are what
    /// ensuring the name makes of those before, and no other group changes.
    pub open spec fn ensure_post(
        &self,
        kty: ChannelKeyType,
        vty: ChannelValueType,
        name: Seq<char>,
        id: RawChannelId,
        after: &MeshChannels,
    ) -> bool {
        &&& self.differs_at(after, kty, vty)
        &&& ensured(
            self.names_of(kty, vty),
            self.cells_of(kty, vty),
            self.versions_of(kty, vty),
            after.names_of(kty, vty),
            after.cells_of(kty, vty),
            after.versions_of(kty, vty),
            kty,
            vty,
            name,
            id,
        )
    }

    /// The identifier of the channel registered as `name` in the pairing
    /// of the given tags; the group is made first if need be, and so is the
    /// channel. Asking twice yields the same identifier.
    pub fn ensure_channel_dyn(
        &mut self,
        kty: ChannelKeyType,
        vty: ChannelValueType,
        name: &str,
    ) -> (id: RawChannelId)
        requires
            old(self).wf(),
            old(self).can_ensure(kty, vty, name@),
        ensures
            final(self).wf(),
            old(self).ensure_post(kty, vty, name@, id, final(self)),
    {
        let ghost before = *self;
        let mut g = self.take_or_default(kty, vty);
        let id = g.ensure_channel_dyn(name);
        self.put(g);
        proof {
            assert(self.groups().dom() =~= before.groups().dom().insert(
                spec_group_code(kty, vty),
            ));
        }
        id
    }

    /// As `ensure_channel_dyn`, for any store: where the name is not
    /// registered in the pairing and the group of the pairing is full,
    /// nothing is done and nothing handed out.
    pub fn try_ensure_channel_dyn(
        &mut self,
        kty: ChannelKeyType,
        vty: ChannelValueType,
        name: &str,
    ) -> (r: Option<RawChannelId>)
        requires
            old(self).wf(),
        ensures
            final(self).wf(),
            r is Some <==> old(self).can_ensure(kty, vty, name@),
            r is Some ==> old(self).ensure_post(kty, vty, name@, r.unwrap(), final(self)),
            r is None ==> final(self).groups() == old(self).groups(),
    {
        if self.channel_id_dyn(kty, vty, name).is_some() || self.room_for(kty, vty) {
            Some(self.ensure_channel_dyn(kty, vty, name))
        } else {
            None
        }
    }

    /// The identifier of the channel from `K` to `V` registered as `name`;
    /// the group is made first if need be, and so is the channel. Asking
    /// twice yields the same identifier.
    pub fn ensure_channel<K: ChannelKey, V: ChannelValue>(&mut self, name: &str) -> (id: ChannelId<
        K,
        V,
    >)
        requires
            old(self).wf(),
            old(self).can_ensure(K::spec_key_type(), V::spec_value_type(), name@),
        ensures
            final(self).wf(),
            id == ChannelId::<K, V>::spec_new(id.spec_raw()),
            old(self).ensure_post(
                K::spec_key_type(),
                V::spec_value_type(),
                name@,
                id.spec_raw(),
                final(self),
            ),
    {
        ChannelId::new(self.ensure_channel_dyn(K::key_type(), V::value_type(), name))
    }

    /// What an operation on the channel `id` of a pairing answers where the
    /// group of that pairing would answer `in_group`: `NotFound` while the
    /// group is not made, else what the group answers.
    pub open spec fn through_group(
        &self,
        kty: ChannelKeyType,
        vty: ChannelValueType,
        in_group: Result<(), ChannelError>,
    ) -> Result<(), ChannelError> {
        if !self.has_group(kty, vty) {
            Err(ChannelError::NotFound)
        } else {
            in_group
        }
    }

    /// Registers `name` in the pairing of the given tags for a new, empty
    /// channel; the group is made first if need be. Fails with
    /// `AlreadyExists` exactly where the name is registered in that pairing
    /// already; nothing changes then.
    pub fn create_channel_dyn(
        &mut self,
        kty: ChannelKeyType,
        vty: ChannelValueType,
        name: &str,
    ) -> (r: Result<RawChannelId, ChannelError>)
        requires
            old(self).wf(),
            old(self).can_ensure(kty, vty, name@),
        ensures
            final(self).wf(),
            r is Ok <==> !old(self).names_of(kty, vty).contains_key(name@),
            r is Err ==> r->Err_0 == ChannelError::AlreadyExists,
            r is Err ==> old(self).same_as(final(self)),
            r is Ok ==> old(self).ensure_post(kty, vty, name@, r.unwrap(), final(self)),
    {
        let ghost before = *self;
        let mut g = self.take_or_default(kty, vty);
        let r = g.create_channel_dyn(name);
        self.put(g);
        proof {
            assert(self.groups().dom() =~= before.groups().dom().insert(
                spec_group_code(kty, vty),
            ));
            if r is Err {
                assert(before.has_group(kty, vty));
                assert(self.groups().dom() =~= before.groups().dom());
            }
        }
        r
    }

    /// Registers `name` for a new, empty channel from `K` to `V`; the group
    /// is made first if need be. Fails with `AlreadyExists` exactly where
    /// the name is registered in that pairing already; no name and no
    /// channel changes then.
    pub fn create_channel<K: ChannelKey, V: ChannelValue>(&mut self, name: &str) -> (r: Result<
        ChannelId<K, V>,
        ChannelError,
    >)
        requires
            old(self).wf(),
            old(self).can_ensure(K::spec_key_type(), V::spec_value_type(), name@),
        ensures
            final(self).wf(),
            r is Ok <==> !old(self).names_of(K::spec_key_type(), V::spec_value_type()).contains_key(
                name@,
            ),
            r is Err ==> r->Err_0 == ChannelError::AlreadyExists,
            r is Err ==> old(self).same_as(final(self)),
            r is Ok ==> r.unwrap() == ChannelId::<K, V>::spec_new(r.unwrap().spec_raw()),
            r is Ok ==> old(self).ensure_post(
                K::spec_key_type(),
                V::spec_value_type(),
                name@,
                r.unwrap().spec_raw(),
                final(self),
            ),
    {
        match self.create_channel_dyn(K::key_type(), V::value_type(), name) {
            Ok(raw) => Ok(ChannelId::new(raw)),
            Err(e) => Err(e),
        }
    }

    /// The identifier of the channel registered as `name` in the pairing
    /// of the given tags, if there is one.
    pub fn channel_id_dyn(&self, kty: ChannelKeyType, vty: ChannelValueType, name: &str) -> (r:
        Option<RawChannelId>)
        requires
            self.wf(),
        ensures
            self.names_of(kty, vty).contains_key(name@) ==> r == Some(
                RawChannelId::spec_from_key(self.names_of(kty, vty)[name@]),
            ),
            !self.names_of(kty, vty).contains_key(name@) ==> r is None,
    {
        broadcast use vstd::std_specs::hash::group_hash_axioms;

        let code = group_code(kty, vty);
        match self.channels.get(&code) {
            Some(g) => g.channel_id_dyn(name),
            None => None,
        }
    }

    /// The identifier of the channel from `K` to `V` registered as `name`,
    /// if there is one.
    pub fn channel_id<K: ChannelKey, V: ChannelValue>(&self, name: &str) -> (r: Option<
        ChannelId<K, V>,
    >)
        requires
            self.wf(),
        ensures
            self.names_of(K::spec_key_type(), V::spec_value_type()).contains_key(name@) ==> r
                == Some(
                ChannelId::<K, V>::spec_new(
                    RawChannelId::spec_from_key(
                        self.names_of(K::spec_key_type(), V::spec_value_type())[name@],
                    ),
                ),
            ),
            self.names_of(K::spec_key_type(), V::spec_value_type()).contains_key(name@) ==> r
                is Some && r.unwrap().spec_raw() == RawChannelId::spec_from_key(
                self.names_of(K::spec_key_type(), V::spec_value_type())[name@],
            ),
            !self.names_of(K::spec_key_type(), V::spec_value_type()).contains_key(name@) ==> r
                is None,
    {
        match self.channel_id_dyn(K::key_type(), V::value_type(), name) {
            Some(raw) => Some(ChannelId::new(raw)),
            None => None,
        }
    }

    /// The name under which the channel `id` from `K` to `V` is registered,
    /// if it is.
    pub fn channel_name<K: ChannelKey, V: ChannelValue>(&self, id: ChannelId<K, V>) -> (r: Option<
        &str,
    >)
        requires
            self.wf(),
        ensures
            r is Some <==> has_key(
                self.names_of(K::spec_key_type(), V::spec_value_type()),
                id.spec_key(),
            ),
            r is Some ==> self.names_of(K::spec_key_type(), V::spec_value_type()).contains_key(
                r.unwrap()@,
            ) && self.names_of(K::spec_key_type(), V::spec_value_type())[r.unwrap()@]
                == id.spec_key(),
    {
        broadcast use vstd::std_specs::hash::group_hash_axioms;

        let code = group_code(K::key_type(), V::value_type());
        match self.channels.get(&code) {
            Some(g) => match g.channel_name_dyn(id.raw()) {
                Some(name) => Some(name.as_str()),
                None => None,
            },
            None => None,
        }
    }

    /// Takes the channel `id` out of the group of the given tags and drops
    /// its name. Fails with `NotFound` where the group is not made or `id`
    /// identifies no channel of it, with `BorrowConflict` where the channel
    /// is held; no name and no channel changes then.
    pub fn remove_channel_dyn(
        &mut self,
        kty: ChannelKeyType,
        vty: ChannelValueType,
        id: RawChannelId,
    ) -> (r: Result<DynChannel, ChannelError>)
        requires
            old(self).wf(),
        ensures
            final(self).wf(),
            r is Ok <==> old(self).through_group(
                kty,
                vty,
                old(self).group(kty, vty).spec_remove(id),
            ) is Ok,
            r is Err ==> r->Err_0 == old(self).through_group(
                kty,
                vty,
                old(self).group(kty, vty).spec_remove(id),
            )->Err_0 && old(self).same_as(final(self)),
            r is Ok ==> old(self).differs_at(final(self), kty, vty) && old(self).group(
                kty,
                vty,
            ).shrunk_by(&final(self).group(kty, vty), id),
            r is Ok ==> r.unwrap().wf() && r.unwrap().spec_key_type() == kty
                && r.unwrap().spec_value_type() == vty && Some(r.unwrap()) == old(self).cells_of(
                kty,
                vty,
            )[id.spec_key()].content(),
    {
        let ghost before = *self;
        match self.take(kty, vty) {
            None => {
                proof {
                    assert(self.groups() =~= before.groups());
                }
                Err(ChannelError::NotFound)
            },
            Some(g) => {
                let mut g = g;
                let r = g.remove_channel_dyn(id);
                self.put(g);
                proof {
                    assert(self.groups().dom() =~= before.groups().dom());
                    assert(self.groups().dom() =~= before.groups().dom().insert(
                        spec_group_code(kty, vty),
                    ));
                }
                r
            },
        }
    }

    /// Takes the channel `id` from `K` to `V` out of its group and drops
    /// its name. Fails with `NotFound` where the group is not made or `id`
    /// identifies no channel of it, with `BorrowConflict` where the channel
    /// is held; no name and no channel changes then.
    pub fn remove_channel<K: ChannelKey, V: ChannelValue>(&mut self, id: ChannelId<K, V>) -> (r:
        Result<Channel<K, V>, ChannelError>)
        requires
            old(self).wf(),
        ensures
            final(self).wf(),
            r is Ok <==> old(self).through_group(
                K::spec_key_type(),
                V::spec_value_type(),
                old(self).group(K::spec_key_type(), V::spec_value_type()).spec_remove(
                    id.spec_raw(),
                ),
            ) is Ok,
            r is Err ==> r->Err_0 == old(self).through_group(
                K::spec_key_type(),
                V::spec_value_type(),
                old(self).group(K::spec_key_type(), V::spec_value_type()).spec_remove(
                    id.spec_raw(),
                ),
            )->Err_0 && old(self).same_as(final(self)),
            r is Ok ==> old(self).differs_at(
                final(self),
                K::spec_key_type(),
                V::spec_value_type(),
            ) && old(self).group(K::spec_key_type(), V::spec_value_type()).shrunk_by(
                &final(self).group(K::spec_key_type(), V::spec_value_type()),
                id.spec_raw(),
            ),
            r is Ok ==> r.unwrap().wf() && Some(r.unwrap().erased()) == old(self).cells_of(
                K::spec_key_type(),
                V::spec_value_type(),
            )[id.spec_key()].content(),
    {
        match self.remove_channel_dyn(K::key_type(), V::value_type(), id.raw()) {
            Ok(channel) => Channel::from_dyn(channel),
            Err(e) => Err(e),
        }
    }

    /// What asking for a channel by name answers where asking for it by
    /// identifier would answer `by_id`: `NotFound` while the name is not
    /// registered in the pairing, else what the identifier answers.
    pub open spec fn through_name(
        &self,
        kty: ChannelKeyType,
        vty: ChannelValueType,
        name: Seq<char>,
        by_id: Result<(), ChannelError>,
    ) -> Result<(), ChannelError> {
        if !self.names_of(kty, vty).contains_key(name) {
            Err(ChannelError::NotFound)
        } else {
            by_id
        }
    }

    /// The identifier registered as `name` in the pairing.
    pub open spec fn id_of(
        &self,
        kty: ChannelKeyType,
        vty: ChannelValueType,
        name: Seq<char>,
    ) -> RawChannelId {
        RawChannelId::spec_from_key(self.names_of(kty, vty)[name])
    }

    /// What `remove_channel_dyn` answers.
    pub open spec fn spec_remove(
        &self,
        kty: ChannelKeyType,
        vty: ChannelValueType,
        id: RawChannelId,
    ) -> Result<(), ChannelError> {
        self.through_group(kty, vty, self.group(kty, vty).spec_remove(id))
    }

    /// What `dyn_read_channel` answers.
    pub open spec fn spec_read(
        &self,
        kty: ChannelKeyType,
        vty: ChannelValueType,
        id: RawChannelId,
    ) -> Result<(), ChannelError> {
        self.through_group(kty, vty, self.group(kty, vty).spec_read(id))
    }

    /// What `dyn_write_channel` answers.
    pub open spec fn spec_write(
        &self,
        kty: ChannelKeyType,
        vty: ChannelValueType,
        id: RawChannelId,
    ) -> Result<(), ChannelError> {
        self.through_group(kty, vty, self.group(kty, vty).spec_write(id))
    }

    /// What `dyn_release_read` answers to a guard with these tags on the
    /// channel `id`.
    pub open spec fn spec_release_read(
        &self,
        kty: ChannelKeyType,
        vty: ChannelValueType,
        id: RawChannelId,
    ) -> Result<(), ChannelError> {
        self.through_group(kty, vty, self.group(kty, vty).spec_release_read(kty, vty, id))
    }

    /// What `dyn_release_write` answers to a guard with these tags on the
    /// channel `id`.
    pub open spec fn spec_release_write(
        &self,
        kty: ChannelKeyType,
        vty: ChannelValueType,
        id: RawChannelId,
    ) -> Result<(), ChannelError> {
        self.through_group(kty, vty, self.group(kty, vty).spec_release_write(kty, vty, id))
    }

    /// What `dyn_channel` answers to a guard with these tags on the
    /// channel `id`.
    pub open spec fn spec_peek(
        &self,
        kty: ChannelKeyType,
        vty: ChannelValueType,
        id: RawChannelId,
    ) -> Result<(), ChannelError> {
        self.through_group(kty, vty, self.group(kty, vty).spec_peek(kty, vty, id))
    }

    /// Whether `after` is this store with one reader more on the channel
    /// `id` of the pairing, and all else as it was.
    pub open spec fn read_post(
        &self,
        kty: ChannelKeyType,
        vty: ChannelValueType,
        id: RawChannelId,
        after: &MeshChannels,
    ) -> bool {
        &&& self.differs_at(after, kty, vty)
        &&& self.group(kty, vty).moved_to(
            &after.group(kty, vty),
            id,
            self.cells_of(kty, vty)[id.spec_key()].content(),
            self.group(kty, vty).state(id).spec_acquire_read().unwrap(),
        )
    }

    /// Whether `after` is this store with the channel `id` of the pairing
    /// handed to a writer, and all else as it was.
    pub open spec fn write_post(
        &self,
        kty: ChannelKeyType,
        vty: ChannelValueType,
        id: RawChannelId,
        after: &MeshChannels,
    ) -> bool {
        &&& self.differs_at(after, kty, vty)
        &&& self.group(kty, vty).moved_to(
            &after.group(kty, vty),
            id,
            None,
            BorrowState::Exclusive,
        )
    }

    /// Whether `after` is this store with one reader fewer on the channel
    /// `id` of the pairing, and all else as it was.
    pub open spec fn release_read_post(
        &self,
        kty: ChannelKeyType,
        vty: ChannelValueType,
        id: RawChannelId,
        after: &MeshChannels,
    ) -> bool {
        &&& self.differs_at(after, kty, vty)
        &&& self.group(kty, vty).moved_to(
            &after.group(kty, vty),
            id,
            self.cells_of(kty, vty)[id.spec_key()].content(),
            self.group(kty, vty).state(id).spec_release_read().unwrap(),
        )
    }

    /// Whether `after` is this store with `channel` back in the group of
    /// the pairing as the channel `id`, free, and all else as it was.
    pub open spec fn release_write_post(
        &self,
        kty: ChannelKeyType,
        vty: ChannelValueType,
        id: RawChannelId,
        channel: DynChannel,
        after: &MeshChannels,
    ) -> bool {
        &&& self.differs_at(after, kty, vty)
        &&& self.group(kty, vty).moved_to(
            &after.group(kty, vty),
            id,
            Some(channel),
            BorrowState::Free,
        )
    }

    /// Lets a reader in on the channel `id` of the pairing of the given
    /// tags. Fails with `NotFound` where the group is not made or `id`
    /// identifies no channel of it, with `BorrowConflict` where a writer
    /// holds the channel; nothing changes then.
    pub fn dyn_read_channel(&mut self, kty: ChannelKeyType, vty: ChannelValueType, id: RawChannelId) -> (r:
        Result<DynReadGuard, ChannelError>)
        requires
            old(self).wf(),
        ensures
            final(self).wf(),
            r is Ok <==> old(self).spec_read(kty, vty, id) is Ok,
            r is Err ==> r->Err_0 == old(self).spec_read(kty, vty, id)->Err_0 && old(self).same_as(
                final(self),
            ),
            r is Ok ==> r.unwrap().spec_id() == id && r.unwrap().spec_key_type() == kty
                && r.unwrap().spec_value_type() == vty,
            r is Ok ==> old(self).read_post(kty, vty, id, final(self)),
    {
        let ghost before = *self;
        match self.take(kty, vty) {
            None => {
                proof {
                    assert(self.groups() =~= before.groups());
                }
                Err(ChannelError::NotFound)
            },
            Some(g) => {
                let mut g = g;
                let r = g.read_channel_dyn(id);
                self.put(g);
                proof {
                    assert(self.groups().dom() =~= before.groups().dom());
                    assert(self.groups().dom() =~= before.groups().dom().insert(
                        spec_group_code(kty, vty),
                    ));
                }
                r
            },
        }
    }

    /// Lets the writer in on the channel `id` of the pairing of the given
    /// tags and hands it the channel. Fails with `NotFound` where the
    /// group is not made or `id` identifies no channel of it, with
    /// `BorrowConflict` where the channel is held by anyone; nothing
    /// changes then.
    pub fn dyn_write_channel(&mut self, kty: ChannelKeyType, vty: ChannelValueType, id: RawChannelId) -> (r:
        Result<DynWriteGuard, ChannelError>)
        requires
            old(self).wf(),
        ensures
            final(self).wf(),
            r is Ok <==> old(self).spec_write(kty, vty, id) is Ok,
            r is Err ==> r->Err_0 == old(self).spec_write(kty, vty, id)->Err_0 && old(
                self,
            ).same_as(final(self)),
            r is Ok ==> r.unwrap().wf() && r.unwrap().spec_id() == id && r.unwrap().spec_key_type()
                == kty && r.unwrap().spec_value_type() == vty,
            r is Ok ==> Some(r.unwrap().spec_channel()) == old(self).cells_of(kty, vty)[id.spec_key()].content(),
            r is Ok ==> old(self).write_post(kty, vty, id, final(self)),
    {
        let ghost before = *self;
        match self.take(kty, vty) {
            None => {
                proof {
                    assert(self.groups() =~= before.groups());
                }
                Err(ChannelError::NotFound)
            },
            Some(g) => {
                let mut g = g;
                let r = g.write_channel_dyn(id);
                self.put(g);
                proof {
                    assert(self.groups().dom() =~= before.groups().dom());
                    assert(self.groups().dom() =~= before.groups().dom().insert(
                        spec_group_code(kty, vty),
                    ));
                }
                r
            },
        }
    }

    /// Lets the reader behind `guard` go. Fails with `NotFound` where the
    /// guard is of no channel of this store, with `BorrowConflict` where
    /// the channel has no reader; nothing changes then.
    pub fn dyn_release_read(&mut self, guard: DynReadGuard) -> (r: Result<(), ChannelError>)
        requires
            old(self).wf(),
        ensures
            final(self).wf(),
            r == old(self).spec_release_read(
                guard.spec_key_type(),
                guard.spec_value_type(),
                guard.spec_id(),
            ),
            r is Err ==> old(self).same_as(final(self)),
            r is Ok ==> old(self).release_read_post(
                guard.spec_key_type(),
                guard.spec_value_type(),
                guard.spec_id(),
                final(self),
            ),
    {
        let ghost before = *self;
        let kty = guard.key_type();
        let vty = guard.value_type();
        match self.take(kty, vty) {
            None => {
                proof {
                    assert(self.groups() =~= before.groups());
                }
                Err(ChannelError::NotFound)
            },
            Some(g) => {
                let mut g = g;
                let r = g.release_read_dyn(guard);
                self.put(g);
                proof {
                    assert(self.groups().dom() =~= before.groups().dom());
                    assert(self.groups().dom() =~= before.groups().dom().insert(
                        spec_group_code(kty, vty),
                    ));
                }
                r
            },
        }
    }

    /// Takes the channel back from the writer behind `guard`, as the
    /// writer left it, and frees it. Fails with `NotFound` where the guard
    /// is of no channel of this store, with `BorrowConflict` where the
    /// channel has no writer; nothing changes then and the guard's channel
    /// is dropped.
    pub fn dyn_release_write(&mut self, guard: DynWriteGuard) -> (r: Result<(), ChannelError>)
        requires
            old(self).wf(),
            guard.wf(),
        ensures
            final(self).wf(),
            r == old(self).spec_release_write(
                guard.spec_key_type(),
                guard.spec_value_type(),
                guard.spec_id(),
            ),
            r is Err ==> old(self).same_as(final(self)),
            r is Ok ==> old(self).release_write_post(
                guard.spec_key_type(),
                guard.spec_value_type(),
                guard.spec_id(),
                guard.spec_channel(),
                final(self),
            ),
    {
        let ghost before = *self;
        let kty = guard.key_type();
        let vty = guard.value_type();
        match self.take(kty, vty) {
            None => {
                proof {
                    assert(self.groups() =~= before.groups());
                }
                Err(ChannelError::NotFound)
            },
            Some(g) => {
                let mut g = g;
                let r = g.release_write_dyn(guard);
                self.put(g);
                proof {
                    assert(self.groups().dom() =~= before.groups().dom());
                    assert(self.groups().dom() =~= before.groups().dom().insert(
                        spec_group_code(kty, vty),
                    ));
                }
                r
            },
        }
    }

    /// The channel behind a reader's guard, for reading. Fails with
    /// `NotFound` where the guard is of no channel of this store, with
    /// `BorrowConflict` where the channel has no reader.
    pub fn dyn_channel(&self, guard: &DynReadGuard) -> (r: Result<&DynChannel, ChannelError>)
        requires
            self.wf(),
        ensures
            r is Ok <==> self.spec_peek(
                guard.spec_key_type(),
                guard.spec_value_type(),
                guard.spec_id(),
            ) is Ok,
            r is Err ==> r->Err_0 == self.spec_peek(
                guard.spec_key_type(),
                guard.spec_value_type(),
                guard.spec_id(),
            )->Err_0,
            r is Ok ==> Some(*r.unwrap()) == self.cells_of(
                guard.spec_key_type(),
                guard.spec_value_type(),
            )[guard.spec_id().spec_key()].content(),
            r is Ok ==> r.unwrap().wf() && r.unwrap().spec_key_type() == guard.spec_key_type()
                && r.unwrap().spec_value_type() == guard.spec_value_type(),
    {
        broadcast use vstd::std_specs::hash::group_hash_axioms;

        let code = group_code(guard.key_type(), guard.value_type());
        match self.channels.get(&code) {
            Some(g) => {
                proof {
                    crate::tags::group_code_is_injective(
                        g.spec_key_type(),
                        g.spec_value_type(),
                        guard.spec_key_type(),
                        guard.spec_value_type(),
                    );
                }
                g.channel_dyn(guard)
            },
            None => Err(ChannelError::NotFound),
        }
    }

    /// Lets a reader in on the channel registered as `name` in the pairing
    /// of the given tags. Fails with `NotFound` where the pairing has no
    /// channel of that name, with `BorrowConflict` where a writer holds the
    /// channel; nothing changes then.
    pub fn dyn_read_channel_by_name(
        &mut self,
        kty: ChannelKeyType,
        vty: ChannelValueType,
        name: &str,
    ) -> (r: Result<DynReadGuard, ChannelError>)
        requires
            old(self).wf(),
        ensures
            final(self).wf(),
            r is Ok <==> old(self).through_name(
                kty,
                vty,
                name@,
                old(self).spec_read(kty, vty, old(self).id_of(kty, vty, name@)),
            ) is Ok,
            r is Err ==> r->Err_0 == old(self).through_name(
                kty,
                vty,
                name@,
                old(self).spec_read(kty, vty, old(self).id_of(kty, vty, name@)),
            )->Err_0 && old(self).same_as(final(self)),
            r is Ok ==> r.unwrap().spec_id() == old(self).id_of(kty, vty, name@)
                && r.unwrap().spec_key_type() == kty && r.unwrap().spec_value_type() == vty,
            r is Ok ==> old(self).read_post(
                kty,
                vty,
                old(self).id_of(kty, vty, name@),
                final(self),
            ),
    {
        match self.channel_id_dyn(kty, vty, name) {
            Some(id) => self.dyn_read_channel(kty, vty, id),
            None => Err(ChannelError::NotFound),
        }
    }

    /// Lets the writer in on the channel registered as `name` in the
    /// pairing of the given tags and hands it the channel. Fails with
    /// `NotFound` where the pairing has no channel of that name, with
    /// `BorrowConflict` where the channel is held by anyone; nothing
    /// changes then.
    pub fn dyn_write_channel_by_name(
        &mut self,
        kty: ChannelKeyType,
        vty: ChannelValueType,
        name: &str,
    ) -> (r: Result<DynWriteGuard, ChannelError>)
        requires
            old(self).wf(),
        ensures
            final(self).wf(),
            r is Ok <==> old(self).through_name(
                kty,
                vty,
                name@,
                old(self).spec_write(kty, vty, old(self).id_of(kty, vty, name@)),
            ) is Ok,
            r is Err ==> r->Err_0 == old(self).through_name(
                kty,
                vty,
                name@,
                old(self).spec_write(kty, vty, old(self).id_of(kty, vty, name@)),
            )->Err_0 && old(self).same_as(final(self)),
            r is Ok ==> r.unwrap().wf() && r.unwrap().spec_id() == old(self).id_of(kty, vty, name@)
                && r.unwrap().spec_key_type() == kty && r.unwrap().spec_value_type() == vty,
            r is Ok ==> Some(r.unwrap().spec_channel()) == old(self).cells_of(kty, vty)[old(
                self,
            ).id_of(kty, vty, name@).spec_key()].content(),
            r is Ok ==> old(self).write_post(
                kty,
                vty,
                old(self).id_of(kty, vty, name@),
                final(self),
            ),
    {
        match self.channel_id_dyn(kty, vty, name) {
            Some(id) => self.dyn_write_channel(kty, vty, id),
            None => Err(ChannelError::NotFound),
        }
    }

    /// Lets a reader in on the channel `id` from `K` to `V`. Fails with
    /// `NotFound` where the group is not made or `id` identifies no channel
    /// of it, with `BorrowConflict` where a writer holds the channel;
    /// nothing changes then.
    pub fn read_channel<K: ChannelKey, V: ChannelValue>(&mut self, id: ChannelId<K, V>) -> (r:
        Result<ReadGuard<K, V>, ChannelError>)
        requires
            old(self).wf(),
        ensures
            final(self).wf(),
            r is Ok <==> old(self).spec_read(K::spec_key_type(), V::spec_value_type(), id.spec_raw()) is Ok,
            r is Err ==> r->Err_0 == old(self).spec_read(K::spec_key_type(), V::spec_value_type(), id.spec_raw())->Err_0
                && old(self).same_as(final(self)),
            r is Ok ==> r.unwrap().wf() && r.unwrap().erased().spec_id() == id.spec_raw(),
            r is Ok ==> old(self).read_post(K::spec_key_type(), V::spec_value_type(), id.spec_raw(), final(self)),
    {
        match self.dyn_read_channel(K::key_type(), V::value_type(), id.raw()) {
            Ok(guard) => ReadGuard::from_dyn(guard),
            Err(e) => Err(e),
        }
    }

    /// Lets the writer in on the channel `id` from `K` to `V` and hands it
    /// the channel. Fails with `NotFound` where the group is not made or
    /// `id` identifies no channel of it, with `BorrowConflict` where the
    /// channel is held by anyone; nothing changes then.
    pub fn write_channel<K: ChannelKey, V: ChannelValue>(&mut self, id: ChannelId<K, V>) -> (r:
        Result<WriteGuard<K, V>, ChannelError>)
        requires
            old(self).wf(),
        ensures
            final(self).wf(),
            r is Ok <==> old(self).spec_write(K::spec_key_type(), V::spec_value_type(), id.spec_raw()) is Ok,
            r is Err ==> r->Err_0 == old(self).spec_write(K::spec_key_type(), V::spec_value_type(), id.spec_raw())->Err_0
                && old(self).same_as(final(self)),
            r is Ok ==> r.unwrap().wf() && r.unwrap().spec_id().spec_raw() == id.spec_raw(),
            r is Ok ==> Some(r.unwrap().spec_channel().erased()) == old(self).cells_of(
                K::spec_key_type(),
                V::spec_value_type(),
            )[id.spec_key()].content(),
            r is Ok ==> old(self).write_post(K::spec_key_type(), V::spec_value_type(), id.spec_raw(), final(self)),
    {
        match self.dyn_write_channel(K::key_type(), V::value_type(), id.raw()) {
            Ok(guard) => WriteGuard::from_dyn(guard),
            Err(e) => Err(e),
        }
    }

    /// Lets a reader in on the channel from `K` to `V` registered as
    /// `name`. Fails with `NotFound` where the pairing has no channel of
    /// that name, with `BorrowConflict` where a writer holds the channel;
    /// nothing changes then.
    pub fn read_channel_by_name<K: ChannelKey, V: ChannelValue>(&mut self, name: &str) -> (r:
        Result<ReadGuard<K, V>, ChannelError>)
        requires
            old(self).wf(),
        ensures
            final(self).wf(),
            r is Ok <==> old(self).through_name(
                K::spec_key_type(),
                V::spec_value_type(),
                name@,
                old(self).spec_read(K::spec_key_type(), V::spec_value_type(), old(self).id_of(K::spec_key_type(), V::spec_value_type(), name@)),
            ) is Ok,
            r is Err ==> r->Err_0 == old(self).through_name(
                K::spec_key_type(),
                V::spec_value_type(),
                name@,
                old(self).spec_read(K::spec_key_type(), V::spec_value_type(), old(self).id_of(K::spec_key_type(), V::spec_value_type(), name@)),
            )->Err_0 && old(self).same_as(final(self)),
            r is Ok ==> r.unwrap().wf() && r.unwrap().erased().spec_id() == old(self).id_of(
                K::spec_key_type(),
                V::spec_value_type(),
                name@,
            ),
            r is Ok ==> old(self).read_post(
                K::spec_key_type(),
                V::spec_value_type(),
                old(self).id_of(K::spec_key_type(), V::spec_value_type(), name@),
                final(self),
            ),
    {
        match self.dyn_read_channel_by_name(K::key_type(), V::value_type(), name) {
            Ok(guard) => ReadGuard::from_dyn(guard),
            Err(e) => Err(e),
        }
    }

    /// Lets the writer in on the channel from `K` to `V` registered as
    /// `name` and hands it the channel. Fails with `NotFound` where the
    /// pairing has no channel of that name, with `BorrowConflict` where the
    /// channel is held by anyone; nothing changes then.
    pub fn write_channel_by_name<K: ChannelKey, V: ChannelValue>(&mut self, name: &str) -> (r:
        Result<WriteGuard<K, V>, ChannelError>)
        requires
            old(self).wf(),
        ensures
            final(self).wf(),
            r is Ok <==> old(self).through_name(
                K::spec_key_type(),
                V::spec_value_type(),
                name@,
                old(self).spec_write(K::spec_key_type(), V::spec_value_type(), old(self).id_of(K::spec_key_type(), V::spec_value_type(), name@)),
            ) is Ok,
            r is Err ==> r->Err_0 == old(self).through_name(
                K::spec_key_type(),
                V::spec_value_type(),
                name@,
                old(self).spec_write(K::spec_key_type(), V::spec_value_type(), old(self).id_of(K::spec_key_type(), V::spec_value_type(), name@)),
            )->Err_0 && old(self).same_as(final(self)),
            r is Ok ==> r.unwrap().wf() && r.unwrap().spec_id().spec_raw() == old(self).id_of(
                K::spec_key_type(),
                V::spec_value_type(),
                name@,
            ),
            r is Ok ==> Some(r.unwrap().spec_channel().erased()) == old(self).cells_of(
                K::spec_key_type(),
                V::spec_value_type(),
            )[old(self).id_of(K::spec_key_type(), V::spec_value_type(), name@).spec_key()].content(),
            r is Ok ==> old(self).write_post(
                K::spec_key_type(),
                V::spec_value_type(),
                old(self).id_of(K::spec_key_type(), V::spec_value_type(), name@),
                final(self),
            ),
    {
        match self.dyn_write_channel_by_name(K::key_type(), V::value_type(), name) {
            Ok(guard) => WriteGuard::from_dyn(guard),
            Err(e) => Err(e),
        }
    }

    /// Lets the reader behind `guard` go. Fails with `NotFound` where the
    /// guard is of no channel of this store, with `BorrowConflict` where
    /// the channel has no reader; nothing changes then.
    pub fn release_read<K: ChannelKey, V: ChannelValue>(&mut self, guard: ReadGuard<K, V>) -> (r:
        Result<(), ChannelError>)
        requires
            old(self).wf(),
        ensures
            final(self).wf(),
            r == old(self).spec_release_read(
                K::spec_key_type(),
                V::spec_value_type(),
                guard.erased().spec_id(),
            ),
            r is Err ==> old(self).same_as(final(self)),
            r is Ok ==> old(self).release_read_post(
                K::spec_key_type(),
                V::spec_value_type(),
                guard.erased().spec_id(),
                final(self),
            ),
    {
        self.dyn_release_read(guard.into_dyn())
    }

    /// Takes the channel back from the writer behind `guard`, as the
    /// writer left it, and frees it. Fails with `NotFound` where the guard
    /// is of no channel of this store, with `BorrowConflict` where the
    /// channel has no writer; nothing changes then and the guard's channel
    /// is dropped.
    pub fn release_write<K: ChannelKey, V: ChannelValue>(&mut self, guard: WriteGuard<K, V>) -> (r:
        Result<(), ChannelError>)
        requires
            old(self).wf(),
            guard.wf(),
        ensures
            final(self).wf(),
            r == old(self).spec_release_write(
                K::spec_key_type(),
                V::spec_value_type(),
                guard.spec_id().spec_raw(),
            ),
            r is Err ==> old(self).same_as(final(self)),
            r is Ok ==> old(self).release_write_post(
                K::spec_key_type(),
                V::spec_value_type(),
                guard.spec_id().spec_raw(),
                guard.spec_channel().erased(),
                final(self),
            ),
    {
        proof {
            guard.erased().lemma_spec_of();
        }
        self.dyn_release_write(guard.into_dyn())
    }

    /// The channel behind a reader's guard, for reading. Fails with
    /// `NotFound` where the guard is of no channel of this store, with
    /// `BorrowConflict` where the channel has no reader.
    pub fn channel<'a, K: ChannelKey, V: ChannelValue>(&'a self, guard: &ReadGuard<K, V>) -> (r:
        Result<ChannelRef<'a, K, V>, ChannelError>)
        requires
            self.wf(),
        ensures
            r is Ok <==> self.spec_peek(
                K::spec_key_type(),
                V::spec_value_type(),
                guard.erased().spec_id(),
            ) is Ok,
            r is Err ==> r->Err_0 == self.spec_peek(
                K::spec_key_type(),
                V::spec_value_type(),
                guard.erased().spec_id(),
            )->Err_0,
            r is Ok ==> r.unwrap().wf() && Some(r.unwrap().erased()) == self.cells_of(
                K::spec_key_type(),
                V::spec_value_type(),
            )[guard.erased().spec_id().spec_key()].content(),
    {
        match self.dyn_channel(guard.as_dyn()) {
            Ok(channel) => ChannelRef::new(channel),
            Err(e) => Err(e),
        }
    }

    /// Whether a writer holds some channel of the store.
    pub open spec fn has_writer(&self) -> bool {
        exists|code: u64| #[trigger]
            self.groups().contains_key(code) && self.groups()[code].has_writer()
    }

    /// The group of the pairing of the given tags, made first if need be.
    /// No other group changes; what the caller does to the group handed out
    /// is what becomes of it in the store.
    pub fn ensure_group_dyn(&mut self, kty: ChannelKeyType, vty: ChannelValueType) -> (g:
        &mut DynChannelGroup)
        requires
            old(self).wf(),
        ensures
            g.wf(),
            g.spec_key_type() == kty,
            g.spec_value_type() == vty,
            old(self).has_group(kty, vty) ==> *g == old(self).group(kty, vty),
            g.names() == old(self).names_of(kty, vty),
            g.cells() == old(self).cells_of(kty, vty),
            final(self).groups() == old(self).groups().insert(spec_group_code(kty, vty), *final(g)),
            final(g).wf() && final(g).spec_key_type() == kty && final(g).spec_value_type() == vty
                ==> final(self).wf(),
    {
        broadcast use vstd::std_specs::hash::group_hash_axioms;

        let code = group_code(kty, vty);
        proof {
            if old(self).has_group(kty, vty) {
                crate::tags::group_code_is_injective(
                    old(self).group(kty, vty).spec_key_type(),
                    old(self).group(kty, vty).spec_value_type(),
                    kty,
                    vty,
                );
            }
        }
        self.channels.entry(code).or_insert(DynChannelGroup::new(kty, vty))
    }

    /// Whether `copy` has a group for every pairing this store has one
    /// for, and no other, each with the names and copies of the channels of
    /// the group here, none of them held.
    pub open spec fn copied_to(&self, copy: &MeshChannels) -> bool {
        &&& copy.groups().dom() == self.groups().dom()
        &&& forall|code: u64| #[trigger]
            copy.groups().contains_key(code) ==> self.groups()[code].copied_to(
                &copy.groups()[code],
            )
    }

    /// A store of its own with the same groups and names and, under the
    /// same identifiers, copies of the channels, none of them held. Fails
    /// with `BorrowConflict` exactly where a writer holds some channel of
    /// the store: that channel is not here to be copied.
    pub fn try_clone(&self) -> (r: Result<MeshChannels, ChannelError>)
        requires
            self.wf(),
        ensures
            r is Err <==> self.has_writer(),
            r is Err ==> r->Err_0 == ChannelError::BorrowConflict,
            r is Ok ==> r.unwrap().wf() && self.copied_to(&r.unwrap()),
    {
        broadcast use vstd::std_specs::hash::group_hash_axioms;

        let mut copy = MeshChannels::new();
        let mut code: u64 = 0;
        while code < GROUP_COUNT as u64
            invariant
                self.wf(),
                copy.wf(),
                code <= GROUP_COUNT,
                forall|c: u64|
                    #![trigger copy.groups().contains_key(c)]
                    copy.groups().contains_key(c) <==> c < code && self.groups().contains_key(c),
                forall|c: u64| #[trigger]
                    copy.groups().contains_key(c) ==> self.groups()[c].copied_to(
                        &copy.groups()[c],
                    ),
                forall|c: u64|
                    c < code && #[trigger] self.groups().contains_key(c)
                        ==> !self.groups()[c].has_writer(),
            decreases GROUP_COUNT - code,
        {
            match self.channels.get(&code) {
                None => {},
                Some(g) => match g.try_clone() {
                    Err(e) => {
                        return Err(e);
                    },
                    Ok(group) => {
                        copy.put(group);
                    },
                },
            }
            code = code + 1;
        }
        proof {
            assert(!self.has_writer()) by {
                if self.has_writer() {
                    let c = choose|c: u64| #[trigger]
                        self.groups().contains_key(c) && self.groups()[c].has_writer();
                    let k = self.groups()[c].spec_key_type();
                    let v = self.groups()[c].spec_value_type();
                    assert(spec_group_code(k, v) == c);
                }
            }
            assert(copy.groups().dom() =~= self.groups().dom()) by {
                assert forall|c: u64| self.groups().contains_key(c) implies c < GROUP_COUNT by {
                    let k = self.groups()[c].spec_key_type();
                    let v = self.groups()[c].spec_value_type();
                    assert(spec_group_code(k, v) == c);
                }
            }
        }
        Ok(copy)
    }

    /// A snapshot of the store: every group by the tags of its pairing,
    /// every channel of it by name, with the values of its entries. Fails
    /// with `BorrowConflict` exactly where a writer holds some channel of
    /// the store.
    pub fn introspect(&self) -> (r: Result<
        Vec<((ChannelKeyType, ChannelValueType), Vec<(String, Vec<Value>)>)>,
        ChannelError,
    >)
        requires
            self.wf(),
        ensures
            r is Err <==> self.has_writer(),
            r is Err ==> r->Err_0 == ChannelError::BorrowConflict,
            r is Ok ==> lists_groups(r.unwrap()@, self.groups()),
    {
        broadcast use vstd::std_specs::hash::group_hash_axioms;

        let mut out: Vec<((ChannelKeyType, ChannelValueType), Vec<(String, Vec<Value>)>)> =
            Vec::new();
        let mut code: u64 = 0;
        while code < GROUP_COUNT as u64
            invariant
                self.wf(),
                code <= GROUP_COUNT,
                forall|i: int|
                    0 <= i < out.len() ==> {
                        &&& spec_group_code((#[trigger] out[i]).0.0, out[i].0.1) < code
                        &&& self.groups().contains_key(spec_group_code(out[i].0.0, out[i].0.1))
                        &&& lists_channels(
                            out[i].1@,
                            self.groups()[spec_group_code(out[i].0.0, out[i].0.1)].names(),
                            self.groups()[spec_group_code(out[i].0.0, out[i].0.1)].cells(),
                        )
                    },
                forall|i: int, j: int|
                    0 <= i < j < out.len() ==> spec_group_code(
                        (#[trigger] out[i]).0.0,
                        out[i].0.1,
                    ) < spec_group_code((#[trigger] out[j]).0.0, out[j].0.1),
                forall|c: u64|
                    c < code && #[trigger] self.groups().contains_key(c) ==> {
                        &&& !self.groups()[c].has_writer()
                        &&& exists|i: int|
                            0 <= i < out.len() && spec_group_code(
                                (#[trigger] out[i]).0.0,
                                out[i].0.1,
                            ) == c
                    },
            decreases GROUP_COUNT - code,
        {
            match self.channels.get(&code) {
                None => {},
                Some(g) => {
                    let tags = (g.key_type(), g.value_type());
                    match g.introspect() {
                        Err(e) => {
                            return Err(e);
                        },
                        Ok(listing) => {
                            let ghost before = out@;
                            out.push((tags, listing));
                            proof {
                                let last = out.len() - 1;
                                assert(spec_group_code(out[last].0.0, out[last].0.1) == code);
                                assert forall|c: u64|
                                    c < code + 1 && #[trigger] self.groups().contains_key(
                                        c,
                                    ) implies exists|i: int|
                                    0 <= i < out.len() && spec_group_code(
                                        (#[trigger] out[i]).0.0,
                                        out[i].0.1,
                                    ) == c by {
                                    if c < code {
                                        let i = choose|i: int|
                                            0 <= i < before.len() && spec_group_code(
                                                (#[trigger] before[i]).0.0,
                                                before[i].0.1,
                                            ) == c;
                                        assert(out[i] == before[i]);
                                    }
                                }
                            }
                        },
                    }
                },
            }
            code = code + 1;
        }
        proof {
            assert(!self.has_writer()) by {
                if self.has_writer() {
                    let c = choose|c: u64| #[trigger]
                        self.groups().contains_key(c) && self.groups()[c].has_writer();
                    assert(c < GROUP_COUNT) by {
                        let k = self.groups()[c].spec_key_type();
                        let v = self.groups()[c].spec_value_type();
                        assert(spec_group_code(k, v) == c);
                    }
                }
            }
            assert forall|c: u64| #[trigger] self.groups().contains_key(c) implies exists|i: int|
                0 <= i < out.len() && spec_group_code((#[trigger] out[i]).0.0, out[i].0.1)
                    == c by {
                let k = self.groups()[c].spec_key_type();
                let v = self.groups()[c].spec_value_type();
                assert(spec_group_code(k, v) == c);
            }
        }
        Ok(out)
    }

    /// Ensuring a name twice in one pairing yields the same identifier
    /// both times, and the second time changes no name and no channel.
    /// The second time can always be asked for: the name is registered.
    pub proof fn lemma_ensure_twice(
        &self,
        first: &MeshChannels,
        second: &MeshChannels,
        kty: ChannelKeyType,
        vty: ChannelValueType,
        name: Seq<char>,
        id1: RawChannelId,
        id2: RawChannelId,
    )
        requires
            self.ensure_post(kty, vty, name, id1, first),
            first.ensure_post(kty, vty, name, id2, second),
        ensures
            first.can_ensure(kty, vty, name),
            id1 == id2,
            second.names_of(kty, vty) == first.names_of(kty, vty),
            second.cells_of(kty, vty) == first.cells_of(kty, vty),
            second.versions_of(kty, vty) == first.versions_of(kty, vty),
    {
        crate::group::lemma_ensure_twice(
            self.names_of(kty, vty),
            self.cells_of(kty, vty),
            self.versions_of(kty, vty),
            first.names_of(kty, vty),
            first.cells_of(kty, vty),
            first.versions_of(kty, vty),
            second.names_of(kty, vty),
            second.cells_of(kty, vty),
            second.versions_of(kty, vty),
            kty,
            vty,
            name,
            id1,
            id2,
        );
    }

    /// Once a name is ensured in a pairing it is found there: lookup by
    /// name gives the identifier, the identifier is registered under that
    /// name and no other, and where the channel was made for the name it
    /// is handed out, to read as well as to write.
    pub proof fn lemma_ensured_is_found(
        &self,
        after: &MeshChannels,
        kty: ChannelKeyType,
        vty: ChannelValueType,
        name: Seq<char>,
        id: RawChannelId,
    )
        requires
            self.wf(),
            after.wf(),
            self.ensure_post(kty, vty, name, id, after),
        ensures
            after.names_of(kty, vty).contains_key(name),
            after.id_of(kty, vty, name) == id,
            has_key(after.names_of(kty, vty), id.spec_key()),
            forall|n: Seq<char>|
                after.names_of(kty, vty).contains_key(n) && #[trigger] after.names_of(
                    kty,
                    vty,
                )[n] == id.spec_key() ==> n == name,
            after.group(kty, vty).state(id).spec_acquire_read() is Some ==> after.spec_read(
                kty,
                vty,
                id,
            ) is Ok,
            !self.names_of(kty, vty).contains_key(name) ==> after.spec_read(kty, vty, id) is Ok
                && after.spec_write(kty, vty, id) is Ok,
    {
    }

    /// The identifier of a channel that was taken out of its group is not
    /// handed out when a name is ensured in that pairing next, even where
    /// the channel made then takes the slot of the old one; the store goes
    /// on not to know the old identifier, by lookup or for a borrow.
    pub proof fn lemma_removed_id_is_not_reissued(
        &self,
        removed: &MeshChannels,
        after: &MeshChannels,
        kty: ChannelKeyType,
        vty: ChannelValueType,
        old_id: RawChannelId,
        name: Seq<char>,
        new_id: RawChannelId,
    )
        requires
            self.wf(),
            self.spec_remove(kty, vty, old_id) is Ok,
            self.differs_at(removed, kty, vty),
            self.group(kty, vty).shrunk_by(&removed.group(kty, vty), old_id),
            removed.ensure_post(kty, vty, name, new_id, after),
        ensures
            new_id != old_id,
            !has_key(after.names_of(kty, vty), old_id.spec_key()),
            after.spec_read(kty, vty, old_id) == Err::<(), ChannelError>(ChannelError::NotFound),
            after.spec_write(kty, vty, old_id) == Err::<(), ChannelError>(
                ChannelError::NotFound,
            ),
    {
        crate::handle::lemma_decoding(old_id.spec_key());
        crate::group::lemma_retired_version_differs(
            crate::handle::key_version(old_id.spec_key()),
        );
        crate::group::lemma_stale_key_is_not_reissued(
            removed.names_of(kty, vty),
            removed.cells_of(kty, vty),
            removed.versions_of(kty, vty),
            after.names_of(kty, vty),
            after.cells_of(kty, vty),
            after.versions_of(kty, vty),
            kty,
            vty,
            name,
            new_id,
            old_id.spec_key(),
        );
    }

    /// From the moment a writer is let in on a channel, asking for that
    /// channel is refused with `BorrowConflict`, to read as well as to
    /// write.
    pub proof fn lemma_writer_excludes(
        &self,
        after: &MeshChannels,
        kty: ChannelKeyType,
        vty: ChannelValueType,
        id: RawChannelId,
    )
        requires
            self.spec_write(kty, vty, id) is Ok,
            self.write_post(kty, vty, id, after),
        ensures
            after.spec_read(kty, vty, id) == Err::<(), ChannelError>(ChannelError::BorrowConflict),
            after.spec_write(kty, vty, id) == Err::<(), ChannelError>(
                ChannelError::BorrowConflict,
            ),
    {
        after.group(kty, vty).lemma_writer_excludes(id);
    }

    /// From the moment the writer has handed a channel back, asking for
    /// that channel succeeds, to read as well as to write.
    pub proof fn lemma_writer_leaves(
        &self,
        after: &MeshChannels,
        kty: ChannelKeyType,
        vty: ChannelValueType,
        id: RawChannelId,
        channel: DynChannel,
    )
        requires
            self.spec_release_write(kty, vty, id) is Ok,
            self.release_write_post(kty, vty, id, channel, after),
        ensures
            after.spec_read(kty, vty, id) is Ok,
            after.spec_write(kty, vty, id) is Ok,
    {
        after.group(kty, vty).lemma_free_is_granted(id);
    }

    /// A channel with any number of readers, short of the largest count,
    /// takes one more: the reader is let in, and the channel then has all
    /// the readers it had and the new one.
    pub proof fn lemma_readers_share(
        &self,
        after: &MeshChannels,
        kty: ChannelKeyType,
        vty: ChannelValueType,
        id: RawChannelId,
        n: nat,
    )
        requires
            self.has_group(kty, vty),
            self.group(kty, vty).registered(id),
            self.group(kty, vty).state(id) == BorrowState::with_readers(n),
            n < u64::MAX,
        ensures
            self.spec_read(kty, vty, id) is Ok,
            self.read_post(kty, vty, id, after) ==> after.has_group(kty, vty) && after.group(
                kty,
                vty,
            ).registered(id) && after.group(kty, vty).state(id) == BorrowState::with_readers(
                n + 1,
            ),
    {
        self.group(kty, vty).lemma_readers_share(id, n);
    }
}

impl Default for MeshChannels {
    fn default() -> (s: MeshChannels)
        ensures
            s.wf(),
            s.groups() == Map::<u64, DynChannelGroup>::empty(),
    {
        MeshChannels::new()
    }
}

/// The channels every mesh has from the start, by identifier.
#[derive(Clone, Copy, Debug)]
pub struct DefaultChannels {
    /// The position of each vertex.
    pub position: ChannelId<VertexId, Vec3>,
}

impl DefaultChannels {
    /// The name under which the vertex positions are registered.
    pub open spec fn position_name() -> Seq<char> {
        "position"@
    }

    /// Makes sure that `channels` has the vertex position channel, and
    /// remembers its identifier.
    pub fn with_position(channels: &mut MeshChannels) -> (r: DefaultChannels)
        requires
            old(channels).wf(),
            old(channels).can_ensure(
                ChannelKeyType::VertexId,
                ChannelValueType::Vec3,
                DefaultChannels::position_name(),
            ),
        ensures
            final(channels).wf(),
            r.position == ChannelId::<VertexId, Vec3>::spec_new(r.position.spec_raw()),
            old(channels).ensure_post(
                ChannelKeyType::VertexId,
                ChannelValueType::Vec3,
                DefaultChannels::position_name(),
                r.position.spec_raw(),
                final(channels),
            ),
    {
        let position = channels.ensure_channel::<VertexId, Vec3>("position");
        DefaultChannels { position }
    }
}

} // verus!
