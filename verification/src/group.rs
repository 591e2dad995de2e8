//! Channel groups: all the channels of one element kind and one value type,
//! each under a name of its own and under a compact identifier. A group
//! hands out its channels as runtime-checked borrows: tokens for readers,
//! the channel itself for the one writer.

use crate::arena::{
    cell_table, cell_versions, cells_clone, cells_get, cells_get_mut, cells_insert, cells_len,
    cells_new, cells_remove, issued_version, retired_version, CellSlots, CELL_LIMIT,
};
use crate::borrow::BorrowState;
use crate::cell::ChannelCell;
use crate::channel::{lists_values, DynChannel};
use crate::handle::{is_canonical, key_index, key_version, lemma_decoding};
use crate::ids::RawChannelId;
use crate::names::{
    has_key, name_pairs, names_clone, names_get_by_left, names_get_by_right, names_insert,
    names_iter, names_new, names_remove_by_right, without_key,
};
use crate::tags::{ChannelError, ChannelKeyType, ChannelValueType};
use crate::values::Value;
use vstd::prelude::*;

verus! {

/// A group whose element kind and value type are known only by their tags.
#[derive(Debug)]
pub struct DynChannelGroup {
    key_type: ChannelKeyType,
    value_type: ChannelValueType,
    channel_names: bimap::BiHashMap<String, u64>,
    channels: CellSlots,
}

/// A reader's hold on a channel: a token that names the channel. The
/// channel stays in its group and is read there.
#[derive(Debug)]
pub struct DynReadGuard {
    key_type: ChannelKeyType,
    value_type: ChannelValueType,
    id: RawChannelId,
}

/// The writer's hold on a channel: the channel itself, out of its group
/// until it is handed back.
#[derive(Debug)]
pub struct DynWriteGuard {
    key_type: ChannelKeyType,
    value_type: ChannelValueType,
    id: RawChannelId,
    channel: DynChannel,
}

impl DynReadGuard {
    pub closed spec fn spec_key_type(&self) -> ChannelKeyType {
        self.key_type
    }

    pub closed spec fn spec_value_type(&self) -> ChannelValueType {
        self.value_type
    }

    /// The channel held.
    pub closed spec fn spec_id(&self) -> RawChannelId {
        self.id
    }

    pub fn key_type(&self) -> (t: ChannelKeyType)
        ensures
            t == self.spec_key_type(),
    {
        self.key_type
    }

    pub fn value_type(&self) -> (t: ChannelValueType)
        ensures
            t == self.spec_value_type(),
    {
        self.value_type
    }

    pub fn id(&self) -> (id: RawChannelId)
        ensures
            id == self.spec_id(),
    {
        self.id
    }
}

impl DynWriteGuard {
    pub closed spec fn spec_key_type(&self) -> ChannelKeyType {
        self.key_type
    }

    pub closed spec fn spec_value_type(&self) -> ChannelValueType {
        self.value_type
    }

    /// The channel held.
    pub closed spec fn spec_id(&self) -> RawChannelId {
        self.id
    }

    /// The channel itself, as the writer has it now.
    pub closed spec fn spec_channel(&self) -> DynChannel {
        self.channel
    }

    /// The channel is well formed and of the kind and type the guard says.
    pub open spec fn wf(&self) -> bool {
        &&& self.spec_channel().wf()
        &&& self.spec_channel().spec_key_type() == self.spec_key_type()
        &&& self.spec_channel().spec_value_type() == self.spec_value_type()
    }

    pub fn key_type(&self) -> (t: ChannelKeyType)
        ensures
            t == self.spec_key_type(),
    {
        self.key_type
    }

    pub fn value_type(&self) -> (t: ChannelValueType)
        ensures
            t == self.spec_value_type(),
    {
        self.value_type
    }

    pub fn id(&self) -> (id: RawChannelId)
        ensures
            id == self.spec_id(),
    {
        self.id
    }

    /// The guard that holds `channel` as the channel `id` of the group of
    /// the given kind and type.
    pub closed spec fn spec_of(
        key_type: ChannelKeyType,
        value_type: ChannelValueType,
        id: RawChannelId,
        channel: DynChannel,
    ) -> DynWriteGuard {
        DynWriteGuard { key_type, value_type, id, channel }
    }

    /// A guard is made of its tags, its identifier and its channel.
    pub proof fn lemma_spec_of(self)
        ensures
            self == DynWriteGuard::spec_of(
                self.spec_key_type(),
                self.spec_value_type(),
                self.spec_id(),
                self.spec_channel(),
            ),
            forall|k: ChannelKeyType, v: ChannelValueType, id: RawChannelId, c: DynChannel|
                #![trigger DynWriteGuard::spec_of(k, v, id, c)]
                {
                    &&& DynWriteGuard::spec_of(k, v, id, c).spec_key_type() == k
                    &&& DynWriteGuard::spec_of(k, v, id, c).spec_value_type() == v
                    &&& DynWriteGuard::spec_of(k, v, id, c).spec_id() == id
                    &&& DynWriteGuard::spec_of(k, v, id, c).spec_channel() == c
                },
    {
    }

    pub(crate) fn from_parts(
        key_type: ChannelKeyType,
        value_type: ChannelValueType,
        id: RawChannelId,
        channel: DynChannel,
    ) -> (g: DynWriteGuard)
        ensures
            g == DynWriteGuard::spec_of(key_type, value_type, id, channel),
            g.spec_key_type() == key_type,
            g.spec_value_type() == value_type,
            g.spec_id() == id,
            g.spec_channel() == channel,
    {
        DynWriteGuard { key_type, value_type, id, channel }
    }

    pub(crate) fn into_channel(self) -> (c: DynChannel)
        ensures
            c == self.spec_channel(),
    {
        self.channel
    }

    /// The channel, for reading.
    pub fn channel(&self) -> (c: &DynChannel)
        ensures
            *c == self.spec_channel(),
    {
        &self.channel
    }

    /// The channel, for writing.
    pub fn channel_mut(&mut self) -> (c: &mut DynChannel)
        ensures
            *c == old(self).spec_channel(),
            final(self).spec_channel() == *final(c),
            final(self).spec_id() == old(self).spec_id(),
            final(self).spec_key_type() == old(self).spec_key_type(),
            final(self).spec_value_type() == old(self).spec_value_type(),
    {
        &mut self.channel
    }
}

/// Whether `listing` names every channel of a group once, in some order,
/// each with the values of its entries by ascending arena index. `names`
/// and `cells` are the group's.
pub open spec fn lists_channels(
    listing: Seq<(String, Vec<Value>)>,
    names: Map<Seq<char>, u64>,
    cells: Map<u64, ChannelCell>,
) -> bool {
    &&& forall|i: int|
        0 <= i < listing.len() ==> {
            &&& names.contains_key((#[trigger] listing[i]).0@)
            &&& cells[names[listing[i].0@]].content() is Some
            &&& lists_values(
                listing[i].1@,
                cells[names[listing[i].0@]].content().unwrap().table(),
            )
        }
    &&& forall|i: int, j: int|
        0 <= i < j < listing.len() ==> (#[trigger] listing[i]).0@ != (#[trigger] listing[j]).0@
    &&& forall|n: Seq<char>| #[trigger]
        names.contains_key(n) ==> exists|i: int|
            0 <= i < listing.len() && (#[trigger] listing[i]).0@ == n
}

/// Whether `cell` is that of a channel just made: free, and without
/// entries.
pub open spec fn is_fresh(cell: ChannelCell, kty: ChannelKeyType, vty: ChannelValueType) -> bool {
    &&& cell.state() == BorrowState::Free
    &&& cell.content() is Some
    &&& cell.content().unwrap().wf()
    &&& cell.content().unwrap().spec_key_type() == kty
    &&& cell.content().unwrap().spec_value_type() == vty
    &&& cell.content().unwrap().table() == Map::<u32, (u32, Value)>::empty()
}

/// Whether every key in `cells` has the version that its slot records in
/// `versions`.
pub open spec fn versions_agree(cells: Map<u64, ChannelCell>, versions: Map<u32, u32>) -> bool {
    forall|k: u64| #[trigger]
        cells.contains_key(k) ==> versions.contains_key(key_index(k)) && versions[key_index(k)]
            == key_version(k)
}

/// A key that is issued for the slot of a key that holds a cell is that
/// very key: while a slot is held no other key is issued for it.
pub proof fn lemma_same_slot_same_key(versions: Map<u32, u32>, held: u64, issued: u64)
    requires
        is_canonical(held),
        is_canonical(issued),
        versions.contains_key(key_index(held)),
        versions[key_index(held)] == key_version(held),
        key_version(issued) == issued_version(versions, key_index(issued)),
        key_index(issued) == key_index(held),
    ensures
        issued == held,
{
    lemma_decoding(held);
    lemma_decoding(issued);
    let v = key_version(held);
    assert(v | 1 == v) by (bit_vector)
        requires
            v % 2 == 1,
    ;
}

/// Whether the names, cells and slot versions of a group have grown by one
/// channel: a fresh one under the key `key`, registered as `name`. The key
/// has the version issued for its slot: one more than the version of the
/// key that held the slot last, if any did.
pub open spec fn grown(
    names0: Map<Seq<char>, u64>,
    cells0: Map<u64, ChannelCell>,
    versions0: Map<u32, u32>,
    names1: Map<Seq<char>, u64>,
    cells1: Map<u64, ChannelCell>,
    versions1: Map<u32, u32>,
    kty: ChannelKeyType,
    vty: ChannelValueType,
    name: Seq<char>,
    key: u64,
) -> bool {
    &&& !cells0.contains_key(key)
    &&& !names0.contains_key(name)
    &&& names1 == names0.insert(name, key)
    &&& cells1.dom() == cells0.dom().insert(key)
    &&& forall|k: u64| #[trigger] cells0.contains_key(k) ==> cells1[k] == cells0[k]
    &&& is_fresh(cells1[key], kty, vty)
    &&& key_version(key) == issued_version(versions0, key_index(key))
    &&& versions1 == versions0.insert(key_index(key), key_version(key))
}

/// Whether the names and cells of a group are what ensuring `name` makes of
/// them, and `id` what it answers: a registered name yields its channel's
/// identifier and changes nothing; a new name is registered for a fresh
/// channel.
pub open spec fn ensured(
    names0: Map<Seq<char>, u64>,
    cells0: Map<u64, ChannelCell>,
    versions0: Map<u32, u32>,
    names1: Map<Seq<char>, u64>,
    cells1: Map<u64, ChannelCell>,
    versions1: Map<u32, u32>,
    kty: ChannelKeyType,
    vty: ChannelValueType,
    name: Seq<char>,
    id: RawChannelId,
) -> bool {
    &&& id.spec_data().wf()
    &&& RawChannelId::spec_from_key(id.spec_key()) == id
    &&& names1.contains_key(name)
    &&& names1[name] == id.spec_key()
    &&& cells1.contains_key(id.spec_key())
    &&& names0.contains_key(name) ==> id == RawChannelId::spec_from_key(names0[name]) && names1
        == names0 && cells1 == cells0 && versions1 == versions0
    &&& !names0.contains_key(name) ==> grown(
        names0,
        cells0,
        versions0,
        names1,
        cells1,
        versions1,
        kty,
        vty,
        name,
        id.spec_key(),
    )
}

/// Ensuring a name twice yields the same identifier both times, and the
/// second time changes nothing. After the first time the name is
/// registered, so that the second needs no room in the group.
pub proof fn lemma_ensure_twice(
    names0: Map<Seq<char>, u64>,
    cells0: Map<u64, ChannelCell>,
    versions0: Map<u32, u32>,
    names1: Map<Seq<char>, u64>,
    cells1: Map<u64, ChannelCell>,
    versions1: Map<u32, u32>,
    names2: Map<Seq<char>, u64>,
    cells2: Map<u64, ChannelCell>,
    versions2: Map<u32, u32>,
    kty: ChannelKeyType,
    vty: ChannelValueType,
    name: Seq<char>,
    id1: RawChannelId,
    id2: RawChannelId,
)
    requires
        ensured(names0, cells0, versions0, names1, cells1, versions1, kty, vty, name, id1),
        ensured(names1, cells1, versions1, names2, cells2, versions2, kty, vty, name, id2),
    ensures
        names1.contains_key(name),
        id1 == id2,
        names2 == names1,
        cells2 == cells1,
        versions2 == versions1,
{
    assert(names1.contains_key(name));
    id1.spec_data().lemma_ffi_round_trip();
    id1.lemma_data();
}

/// The key of version `version` has left its slot: what the slot records
/// then is not what would issue that key again.
pub proof fn lemma_retired_version_differs(version: u32)
    requires
        version % 2 == 1,
    ensures
        retired_version(version) | 1 != version,
{
    let next = retired_version(version);
    assert(next | 1 != version) by (bit_vector)
        requires
            version % 2 == 1,
            next == (if version == 0xffff_ffffu32 {
                0u32
            } else {
                (version + 1) as u32
            }),
    ;
}

/// A key that holds no cell, and that is not the key its slot would issue
/// next, is not the key handed out when a name is ensured, whether that
/// name is registered or a channel is made for it, even where the new
/// channel takes the very slot. The key stays out of the names and cells.
pub proof fn lemma_stale_key_is_not_reissued(
    names0: Map<Seq<char>, u64>,
    cells0: Map<u64, ChannelCell>,
    versions0: Map<u32, u32>,
    names1: Map<Seq<char>, u64>,
    cells1: Map<u64, ChannelCell>,
    versions1: Map<u32, u32>,
    kty: ChannelKeyType,
    vty: ChannelValueType,
    name: Seq<char>,
    id: RawChannelId,
    stale: u64,
)
    requires
        !cells0.contains_key(stale),
        !has_key(names0, stale),
        issued_version(versions0, key_index(stale)) != key_version(stale),
        ensured(names0, cells0, versions0, names1, cells1, versions1, kty, vty, name, id),
    ensures
        id.spec_key() != stale,
        !cells1.contains_key(stale),
        !has_key(names1, stale),
{
    if has_key(names1, stale) {
        let n = choose|n: Seq<char>| #[trigger] names1.contains_key(n) && names1[n] == stale;
        if n != name {
            assert(names0.contains_key(n) && names0[n] == stale);
        }
    }
}

impl DynChannelGroup {
    pub closed spec fn spec_key_type(&self) -> ChannelKeyType {
        self.key_type
    }

    pub closed spec fn spec_value_type(&self) -> ChannelValueType {
        self.value_type
    }

    /// The registered names, each with the key of its channel.
    pub closed spec fn names(&self) -> Map<Seq<char>, u64> {
        name_pairs(self.channel_names)
    }

    /// The channels, each in its cell under its key.
    pub closed spec fn cells(&self) -> Map<u64, ChannelCell> {
        cell_table(self.channels)
    }

    /// The version that each slot of the group's arena records, by slot
    /// index.
    pub closed spec fn versions(&self) -> Map<u32, u32> {
        cell_versions(self.channels)
    }

    /// Names and channels correspond one to one, every cell holds a
    /// channel of the group's kind and type, and the slot of every channel
    /// records the version of the channel's key.
    pub open spec fn wf(&self) -> bool {
        &&& self.cells().dom().finite()
        &&& versions_agree(self.cells(), self.versions())
        &&& forall|n: Seq<char>| #[trigger]
            self.names().contains_key(n) ==> self.cells().contains_key(self.names()[n])
        &&& forall|n1: Seq<char>, n2: Seq<char>|
            #![trigger self.names()[n1], self.names()[n2]]
            self.names().contains_key(n1) && self.names().contains_key(n2) && self.names()[n1]
                == self.names()[n2] ==> n1 == n2
        &&& forall|k: u64| #[trigger]
            self.cells().contains_key(k) ==> {
                &&& is_canonical(k)
                &&& has_key(self.names(), k)
                &&& self.cells()[k].wf(self.spec_key_type(), self.spec_value_type())
            }
    }

    /// Whether `name` can be ensured: it is registered already, or the
    /// group has room for one more channel.
    pub open spec fn can_ensure(&self, name: Seq<char>) -> bool {
        self.names().contains_key(name) || self.spec_len() < CELL_LIMIT
    }

    /// Whether `id` identifies a channel of the group.
    pub open spec fn registered(&self, id: RawChannelId) -> bool {
        self.cells().contains_key(id.spec_key())
    }

    /// Who holds the channel `id`.
    pub open spec fn state(&self, id: RawChannelId) -> BorrowState {
        self.cells()[id.spec_key()].state()
    }

    /// The number of channels.
    pub open spec fn spec_len(&self) -> nat {
        self.cells().dom().len()
    }

    /// Whether `other` has the same names and the same channels in the same
    /// states.
    pub open spec fn same_as(&self, other: &DynChannelGroup) -> bool {
        &&& self.names() == other.names()
        &&& self.cells() == other.cells()
        &&& self.versions() == other.versions()
        &&& self.spec_key_type() == other.spec_key_type()
        &&& self.spec_value_type() == other.spec_value_type()
    }

    /// What `ensure_channel_dyn` does: a registered name yields its
    /// channel's identifier and changes nothing; a new name is registered
    /// for a fresh channel.
    pub open spec fn ensure_post(
        &self,
        name: Seq<char>,
        id: RawChannelId,
        after: &DynChannelGroup,
    ) -> bool {
        &&& ensured(
            self.names(),
            self.cells(),
            self.versions(),
            after.names(),
            after.cells(),
            after.versions(),
            self.spec_key_type(),
            self.spec_value_type(),
            name,
            id,
        )
        &&& after.spec_key_type() == self.spec_key_type()
        &&& after.spec_value_type() == self.spec_value_type()
    }

    /// A group without channels.
    pub fn new(key_type: ChannelKeyType, value_type: ChannelValueType) -> (g: DynChannelGroup)
        ensures
            g.wf(),
            g.spec_key_type() == key_type,
            g.spec_value_type() == value_type,
            g.names() == Map::<Seq<char>, u64>::empty(),
            g.cells() == Map::<u64, ChannelCell>::empty(),
            g.versions() == Map::<u32, u32>::empty(),
    {
        DynChannelGroup { key_type, value_type, channel_names: names_new(), channels: cells_new() }
    }

    pub fn key_type(&self) -> (t: ChannelKeyType)
        ensures
            t == self.spec_key_type(),
    {
        self.key_type
    }

    pub fn value_type(&self) -> (t: ChannelValueType)
        ensures
            t == self.spec_value_type(),
    {
        self.value_type
    }

    /// The number of channels.
    pub fn len(&self) -> (n: usize)
        ensures
            n == self.spec_len(),
    {
        cells_len(&self.channels)
    }

    /// Whether the group can take one more channel.
    pub fn has_room(&self) -> (b: bool)
        ensures
            b == (self.spec_len() < CELL_LIMIT),
    {
        cells_len(&self.channels) < CELL_LIMIT
    }

    /// The identifier of the channel registered as `name`, if there is one.
    pub fn channel_id_dyn(&self, name: &str) -> (r: Option<RawChannelId>)
        ensures
            self.names().contains_key(name@) ==> r == Some(
                RawChannelId::spec_from_key(self.names()[name@]),
            ),
            !self.names().contains_key(name@) ==> r is None,
            r is Some ==> r.unwrap().spec_data().wf(),
    {
        match names_get_by_left(&self.channel_names, name) {
            Some(key) => Some(RawChannelId::from_key(key)),
            None => None,
        }
    }

    /// The name under which the channel `id` is registered, if it is.
    pub fn channel_name_dyn(&self, id: RawChannelId) -> (r: Option<&String>)
        ensures
            r is Some <==> has_key(self.names(), id.spec_key()),
            r is Some ==> self.names().contains_key(r.unwrap()@) && self.names()[r.unwrap()@]
                == id.spec_key(),
    {
        names_get_by_right(&self.channel_names, id.key())
    }

    /// The identifier of the channel registered as `name`; a name not yet
    /// registered is registered for a new, empty channel first. Asking
    /// twice yields the same identifier.
    pub fn ensure_channel_dyn(&mut self, name: &str) -> (id: RawChannelId)
        requires
            old(self).wf(),
            old(self).can_ensure(name@),
        ensures
            final(self).wf(),
            old(self).ensure_post(name@, id, final(self)),
    {
        match names_get_by_left(&self.channel_names, name) {
            Some(key) => {
                let id = RawChannelId::from_key(key);
                id
            },
            None => {
                let ghost before = *self;
                let cell = ChannelCell::new(DynChannel::new(self.key_type, self.value_type));
                let key = cells_insert(&mut self.channels, cell);
                names_insert(&mut self.channel_names, name.to_owned(), key);
                let id = RawChannelId::from_key(key);
                proof {
                    assert(!has_key(before.names(), key)) by {
                        if has_key(before.names(), key) {
                            let n = choose|n: Seq<char>| #[trigger]
                                before.names().contains_key(n) && before.names()[n] == key;
                            assert(before.cells().contains_key(before.names()[n]));
                        }
                    }
                    assert(without_key(before.names(), key) =~= before.names());
                    assert(self.names() == before.names().insert(name@, key));
                    assert(self.cells().dom() =~= before.cells().dom().insert(key));
                    assert forall|k: u64| #[trigger] self.cells().contains_key(k) implies {
                        &&& is_canonical(k)
                        &&& has_key(self.names(), k)
                        &&& self.cells()[k].wf(self.spec_key_type(), self.spec_value_type())
                        &&& self.versions().contains_key(key_index(k))
                        &&& self.versions()[key_index(k)] == key_version(k)
                    } by {
                        if k == key {
                            assert(self.names().contains_key(name@) && self.names()[name@] == key);
                        } else {
                            assert(before.cells().contains_key(k));
                            if key_index(k) == key_index(key) {
                                lemma_same_slot_same_key(before.versions(), k, key);
                            }
                            let n = choose|n: Seq<char>| #[trigger]
                                before.names().contains_key(n) && before.names()[n] == k;
                            assert(self.names().contains_key(n) && self.names()[n] == k);
                        }
                    }
                }
                id
            },
        }
    }

    /// Whether `after` is this group with the cell of `id` replaced by
    /// `cell`, and all else as it was.
    pub open spec fn with_cell(
        &self,
        after: &DynChannelGroup,
        id: RawChannelId,
        cell: ChannelCell,
    ) -> bool {
        &&& after.names() == self.names()
        &&& after.cells() == self.cells().insert(id.spec_key(), cell)
        &&& after.versions() == self.versions()
        &&& after.spec_key_type() == self.spec_key_type()
        &&& after.spec_value_type() == self.spec_value_type()
    }

    /// Whether `after` is this group with the channel `id` in the given
    /// state and with the given content, and all else as it was.
    pub open spec fn moved_to(
        &self,
        after: &DynChannelGroup,
        id: RawChannelId,
        content: Option<DynChannel>,
        state: BorrowState,
    ) -> bool {
        &&& self.with_cell(after, id, ChannelCell::of(content, state))
        &&& after.registered(id)
        &&& after.state(id) == state
        &&& after.cells()[id.spec_key()].content() == content
    }

    /// Whether `after` is this group without the channel `id` and its
    /// name. The slot that the channel held records the version after the
    /// identifier's, so that the identifier is not issued for it again.
    pub open spec fn shrunk_by(&self, after: &DynChannelGroup, id: RawChannelId) -> bool {
        &&& after.names() == without_key(self.names(), id.spec_key())
        &&& after.cells() == self.cells().remove(id.spec_key())
        &&& after.versions() == self.versions().insert(
            key_index(id.spec_key()),
            retired_version(key_version(id.spec_key())),
        )
        &&& after.spec_key_type() == self.spec_key_type()
        &&& after.spec_value_type() == self.spec_value_type()
    }

    /// A group stays well formed when the cell of one of its channels is
    /// replaced by a well-formed cell.
    pub proof fn lemma_cell_replaced(
        &self,
        after: &DynChannelGroup,
        id: RawChannelId,
        cell: ChannelCell,
    )
        requires
            self.wf(),
            self.registered(id),
            cell.wf(self.spec_key_type(), self.spec_value_type()),
            self.with_cell(after, id, cell),
        ensures
            after.wf(),
    {
        assert(after.cells().dom() =~= self.cells().dom());
        assert forall|k: u64| #[trigger] after.cells().contains_key(k) implies {
            &&& is_canonical(k)
            &&& has_key(after.names(), k)
            &&& after.cells()[k].wf(after.spec_key_type(), after.spec_value_type())
            &&& after.versions().contains_key(key_index(k))
            &&& after.versions()[key_index(k)] == key_version(k)
        } by {
            assert(self.cells().contains_key(k));
        }
        assert(forall|n: Seq<char>| #[trigger]
            after.names().contains_key(n) ==> after.cells().contains_key(after.names()[n]));
        assert(forall|n1: Seq<char>, n2: Seq<char>|
            #![trigger after.names()[n1], after.names()[n2]]
            after.names().contains_key(n1) && after.names().contains_key(n2) && after.names()[n1]
                == after.names()[n2] ==> n1 == n2);
    }

    /// A group with the same names and cells as a well-formed one is well
    /// formed.
    pub proof fn lemma_unchanged(&self, after: &DynChannelGroup)
        requires
            self.wf(),
            after.names() =~= self.names(),
            after.cells() =~= self.cells(),
            after.versions() =~= self.versions(),
            after.spec_key_type() == self.spec_key_type(),
            after.spec_value_type() == self.spec_value_type(),
        ensures
            after.wf(),
            self.same_as(after),
    {
        assert forall|k: u64| #[trigger] after.cells().contains_key(k) implies {
            &&& is_canonical(k)
            &&& has_key(after.names(), k)
            &&& after.cells()[k].wf(after.spec_key_type(), after.spec_value_type())
            &&& after.versions().contains_key(key_index(k))
            &&& after.versions()[key_index(k)] == key_version(k)
        } by {
            assert(self.cells().contains_key(k));
        }
        assert(forall|n: Seq<char>| #[trigger]
            after.names().contains_key(n) ==> after.cells().contains_key(after.names()[n]));
        assert(forall|n1: Seq<char>, n2: Seq<char>|
            #![trigger after.names()[n1], after.names()[n2]]
            after.names().contains_key(n1) && after.names().contains_key(n2) && after.names()[n1]
                == after.names()[n2] ==> n1 == n2);
    }

    /// What `create_channel_dyn` answers.
    pub open spec fn spec_create(&self, name: Seq<char>) -> Result<(), ChannelError> {
        if self.names().contains_key(name) {
            Err(ChannelError::AlreadyExists)
        } else {
            Ok(())
        }
    }

    /// What `remove_channel_dyn` answers.
    pub open spec fn spec_remove(&self, id: RawChannelId) -> Result<(), ChannelError> {
        if !self.registered(id) {
            Err(ChannelError::NotFound)
        } else if self.state(id) != BorrowState::Free {
            Err(ChannelError::BorrowConflict)
        } else {
            Ok(())
        }
    }

    /// What `read_channel_dyn` answers.
    pub open spec fn spec_read(&self, id: RawChannelId) -> Result<(), ChannelError> {
        if !self.registered(id) {
            Err(ChannelError::NotFound)
        } else if self.state(id).spec_acquire_read() is None {
            Err(ChannelError::BorrowConflict)
        } else {
            Ok(())
        }
    }

    /// What `write_channel_dyn` answers.
    pub open spec fn spec_write(&self, id: RawChannelId) -> Result<(), ChannelError> {
        if !self.registered(id) {
            Err(ChannelError::NotFound)
        } else if self.state(id).spec_acquire_write() is None {
            Err(ChannelError::BorrowConflict)
        } else {
            Ok(())
        }
    }

    /// Whether a guard with these tags can be one of this group.
    pub open spec fn owns(&self, kty: ChannelKeyType, vty: ChannelValueType, id: RawChannelId) -> bool {
        kty == self.spec_key_type() && vty == self.spec_value_type() && self.registered(id)
    }

    /// What `release_read_dyn` answers to a guard with these tags on the
    /// channel `id`.
    pub open spec fn spec_release_read(
        &self,
        kty: ChannelKeyType,
        vty: ChannelValueType,
        id: RawChannelId,
    ) -> Result<(), ChannelError> {
        if !self.owns(kty, vty, id) {
            Err(ChannelError::NotFound)
        } else if self.state(id).spec_release_read() is None {
            Err(ChannelError::BorrowConflict)
        } else {
            Ok(())
        }
    }

    /// What `release_write_dyn` answers to a guard with these tags on the
    /// channel `id`.
    pub open spec fn spec_release_write(
        &self,
        kty: ChannelKeyType,
        vty: ChannelValueType,
        id: RawChannelId,
    ) -> Result<(), ChannelError> {
        if !self.owns(kty, vty, id) {
            Err(ChannelError::NotFound)
        } else if self.state(id).spec_release_write() is None {
            Err(ChannelError::BorrowConflict)
        } else {
            Ok(())
        }
    }

    /// Whether a writer holds some channel of the group.
    pub open spec fn has_writer(&self) -> bool {
        exists|k: u64| #[trigger]
            self.cells().contains_key(k) && self.cells()[k].state() == BorrowState::Exclusive
    }

    /// What `channel_dyn` answers to a guard with these tags on the
    /// channel `id`.
    pub open spec fn spec_peek(
        &self,
        kty: ChannelKeyType,
        vty: ChannelValueType,
        id: RawChannelId,
    ) -> Result<(), ChannelError> {
        if !self.owns(kty, vty, id) {
            Err(ChannelError::NotFound)
        } else if self.state(id).readers() == 0 {
            Err(ChannelError::BorrowConflict)
        } else {
            Ok(())
        }
    }

    /// Registers `name` for a new, empty channel. Fails with
    /// `AlreadyExists`, and changes nothing, exactly where the name is
    /// registered already.
    pub fn create_channel_dyn(&mut self, name: &str) -> (r: Result<RawChannelId, ChannelError>)
        requires
            old(self).wf(),
            old(self).can_ensure(name@),
        ensures
            final(self).wf(),
            r is Ok <==> old(self).spec_create(name@) is Ok,
            r is Err ==> r->Err_0 == old(self).spec_create(name@)->Err_0 && old(self).same_as(
                final(self),
            ),
            r is Ok ==> old(self).ensure_post(name@, r.unwrap(), final(self)),
    {
        if names_get_by_left(&self.channel_names, name).is_some() {
            Err(ChannelError::AlreadyExists)
        } else {
            Ok(self.ensure_channel_dyn(name))
        }
    }

    /// Takes the channel `id` out of the group and drops its name. Fails
    /// with `NotFound` where `id` identifies no channel of the group, with
    /// `BorrowConflict` where the channel is held; the group is then
    /// unchanged.
    pub fn remove_channel_dyn(&mut self, id: RawChannelId) -> (r: Result<DynChannel, ChannelError>)
        requires
            old(self).wf(),
        ensures
            final(self).wf(),
            r is Ok <==> old(self).spec_remove(id) is Ok,
            r is Err ==> r->Err_0 == old(self).spec_remove(id)->Err_0 && old(self).same_as(
                final(self),
            ),
            r is Ok ==> Some(r.unwrap()) == old(self).cells()[id.spec_key()].content()
                && old(self).shrunk_by(final(self), id),
    {
        let key = id.key();
        match cells_get(&self.channels, key) {
            None => {
                return Err(ChannelError::NotFound);
            },
            Some(cell) => {
                match cell.borrow_state() {
                    BorrowState::Free => {},
                    _ => {
                        return Err(ChannelError::BorrowConflict);
                    },
                }
            },
        }
        let ghost before = *self;
        let _ = names_remove_by_right(&mut self.channel_names, key);
        let taken = cells_remove(&mut self.channels, key);
        proof {
            assert forall|k: u64| #[trigger] self.cells().contains_key(k) implies has_key(
                self.names(),
                k,
            ) && self.versions().contains_key(key_index(k)) && self.versions()[key_index(k)]
                == key_version(k) by {
                let n = choose|n: Seq<char>| #[trigger]
                    before.names().contains_key(n) && before.names()[n] == k;
                assert(self.names().contains_key(n) && self.names()[n] == k);
                assert(before.cells().contains_key(k));
                assert(before.cells().contains_key(key));
                if key_index(k) == key_index(key) {
                    lemma_decoding(k);
                    lemma_decoding(key);
                }
            }
        }
        match taken {
            Some(cell) => match cell.into_channel() {
                Some(channel) => Ok(channel),
                None => Err(ChannelError::BorrowConflict),
            },
            None => Err(ChannelError::NotFound),
        }
    }

    /// Lets a reader in on the channel `id`. Fails with `NotFound` where
    /// `id` identifies no channel of the group, with `BorrowConflict` where
    /// a writer holds the channel; the group is then unchanged.
    pub fn read_channel_dyn(&mut self, id: RawChannelId) -> (r: Result<DynReadGuard, ChannelError>)
        requires
            old(self).wf(),
        ensures
            final(self).wf(),
            r is Ok <==> old(self).spec_read(id) is Ok,
            r is Err ==> r->Err_0 == old(self).spec_read(id)->Err_0 && old(self).same_as(
                final(self),
            ),
            r is Ok ==> r.unwrap().spec_id() == id && r.unwrap().spec_key_type()
                == old(self).spec_key_type() && r.unwrap().spec_value_type()
                == old(self).spec_value_type(),
            r is Ok ==> old(self).moved_to(
                final(self),
                id,
                old(self).cells()[id.spec_key()].content(),
                old(self).state(id).spec_acquire_read().unwrap(),
            ),
    {
        let key = id.key();
        let ghost before = *self;
        let done = match cells_get_mut(&mut self.channels, key) {
            None => None,
            Some(cell) => {
                proof {
                    cell.lemma_of();
                    cell.state().lemma_steps_keep_wf();
                }
                Some(cell.acquire_read())
            },
        };
        proof {
            if done is Some {
                before.cells()[key].lemma_of();
                before.cells()[key].state().lemma_steps_keep_wf();
            }
            if done == Some(true) {
                before.lemma_cell_replaced(self, id, self.cells()[key]);
                self.cells()[key].lemma_of();
            } else {
                before.lemma_unchanged(self);
            }
        }
        match done {
            None => Err(ChannelError::NotFound),
            Some(false) => Err(ChannelError::BorrowConflict),
            Some(true) => Ok(
                DynReadGuard { key_type: self.key_type, value_type: self.value_type, id },
            ),
        }
    }

    /// Lets the writer in on the channel `id` and hands it the channel.
    /// Fails with `NotFound` where `id` identifies no channel of the group,
    /// with `BorrowConflict` where the channel is held by anyone; the group
    /// is then unchanged.
    pub fn write_channel_dyn(&mut self, id: RawChannelId) -> (r: Result<
        DynWriteGuard,
        ChannelError,
    >)
        requires
            old(self).wf(),
        ensures
            final(self).wf(),
            r is Ok <==> old(self).spec_write(id) is Ok,
            r is Err ==> r->Err_0 == old(self).spec_write(id)->Err_0 && old(self).same_as(
                final(self),
            ),
            r is Ok ==> r.unwrap().wf() && r.unwrap().spec_id() == id && r.unwrap().spec_key_type()
                == old(self).spec_key_type() && r.unwrap().spec_value_type()
                == old(self).spec_value_type(),
            r is Ok ==> Some(r.unwrap().spec_channel()) == old(self).cells()[id.spec_key()].content(),
            r is Ok ==> old(self).moved_to(final(self), id, None, BorrowState::Exclusive),
    {
        let key = id.key();
        let ghost before = *self;
        let taken = match cells_get_mut(&mut self.channels, key) {
            None => None,
            Some(cell) => {
                proof {
                    cell.lemma_of();
                }
                Some(cell.acquire_write())
            },
        };
        proof {
            if taken is Some {
                before.cells()[key].lemma_of();
            }
            if taken is Some && taken.unwrap() is Some {
                before.lemma_cell_replaced(self, id, self.cells()[key]);
                self.cells()[key].lemma_of();
            } else {
                before.lemma_unchanged(self);
            }
        }
        match taken {
            None => Err(ChannelError::NotFound),
            Some(None) => Err(ChannelError::BorrowConflict),
            Some(Some(channel)) => Ok(
                DynWriteGuard { key_type: self.key_type, value_type: self.value_type, id, channel },
            ),
        }
    }

    /// Lets the reader behind `guard` go. Fails with `NotFound` where the
    /// guard is of no channel of this group, with `BorrowConflict` where
    /// the channel has no reader; the group is then unchanged.
    pub fn release_read_dyn(&mut self, guard: DynReadGuard) -> (r: Result<(), ChannelError>)
        requires
            old(self).wf(),
        ensures
            final(self).wf(),
            r == old(self).spec_release_read(
                guard.spec_key_type(),
                guard.spec_value_type(),
                guard.spec_id(),
            ),
            r is Err ==> old(self).same_as(final(self)),
            r is Ok ==> old(self).moved_to(
                final(self),
                guard.spec_id(),
                old(self).cells()[guard.spec_id().spec_key()].content(),
                old(self).state(guard.spec_id()).spec_release_read().unwrap(),
            ),
    {
        if !(guard.key_type == self.key_type && guard.value_type == self.value_type) {
            return Err(ChannelError::NotFound);
        }
        let id = guard.id;
        let key = id.key();
        let ghost before = *self;
        let done = match cells_get_mut(&mut self.channels, key) {
            None => None,
            Some(cell) => {
                proof {
                    cell.lemma_of();
                }
                Some(cell.release_read())
            },
        };
        proof {
            if done is Some {
                before.cells()[key].lemma_of();
                before.cells()[key].state().lemma_steps_keep_wf();
            }
            if done == Some(true) {
                before.lemma_cell_replaced(self, id, self.cells()[key]);
                self.cells()[key].lemma_of();
            } else {
                before.lemma_unchanged(self);
            }
        }
        match done {
            None => Err(ChannelError::NotFound),
            Some(false) => Err(ChannelError::BorrowConflict),
            Some(true) => Ok(()),
        }
    }

    /// Takes the channel back from the writer behind `guard`, as the
    /// writer left it, and frees it. Fails with `NotFound` where the guard
    /// is of no channel of this group, with `BorrowConflict` where the
    /// channel has no writer; the group is then unchanged and the guard's
    /// channel is dropped.
    pub fn release_write_dyn(&mut self, guard: DynWriteGuard) -> (r: Result<(), ChannelError>)
        requires
            old(self).wf(),
            guard.wf(),
        ensures
            final(self).wf(),
            r == old(self).spec_release_write(
                guard.spec_key_type(),
                guard.spec_value_type(),
                guard.spec_id(),
            ),
            r is Err ==> old(self).same_as(final(self)),
            r is Ok ==> old(self).moved_to(
                final(self),
                guard.spec_id(),
                Some(guard.spec_channel()),
                BorrowState::Free,
            ),
    {
        if !(guard.key_type == self.key_type && guard.value_type == self.value_type) {
            return Err(ChannelError::NotFound);
        }
        let id = guard.id;
        let key = id.key();
        let ghost before = *self;
        let ghost channel = guard.channel;
        let left = match cells_get_mut(&mut self.channels, key) {
            None => None,
            Some(cell) => {
                proof {
                    cell.lemma_of();
                }
                Some(cell.release_write(guard.channel))
            },
        };
        proof {
            if left is Some {
                before.cells()[key].lemma_of();
                ChannelCell::free(channel).lemma_of();
            }
            if left is Some && left.unwrap() is None {
                before.lemma_cell_replaced(self, id, self.cells()[key]);
                self.cells()[key].lemma_of();
            } else {
                before.lemma_unchanged(self);
            }
        }
        match left {
            None => Err(ChannelError::NotFound),
            Some(Some(_)) => Err(ChannelError::BorrowConflict),
            Some(None) => Ok(()),
        }
    }

    /// The channel behind a reader's guard, for reading. Fails with
    /// `NotFound` where the guard is of no channel of this group, with
    /// `BorrowConflict` where the channel has no reader.
    pub fn channel_dyn(&self, guard: &DynReadGuard) -> (r: Result<&DynChannel, ChannelError>)
        requires
            self.wf(),
        ensures
            r is Ok <==> self.spec_peek(
                guard.spec_key_type(),
                guard.spec_value_type(),
                guard.spec_id(),
            ) is Ok,
            r is Err ==> r->Err_0 == self.spec_peek(
                guard.spec_key_type(),
                guard.spec_value_type(),
                guard.spec_id(),
            )->Err_0,
            r is Ok ==> Some(*r.unwrap()) == self.cells()[guard.spec_id().spec_key()].content(),
            r is Ok ==> r.unwrap().wf() && r.unwrap().spec_key_type() == self.spec_key_type()
                && r.unwrap().spec_value_type() == self.spec_value_type(),
    {
        if !(guard.key_type == self.key_type && guard.value_type == self.value_type) {
            return Err(ChannelError::NotFound);
        }
        match cells_get(&self.channels, guard.id.key()) {
            None => Err(ChannelError::NotFound),
            Some(cell) => match cell.borrow_state() {
                BorrowState::Shared(_) => match cell.peek() {
                    Some(channel) => Ok(channel),
                    None => Err(ChannelError::BorrowConflict),
                },
                _ => Err(ChannelError::BorrowConflict),
            },
        }
    }

    /// Whether `copy` has the names of this group and, under each key, a
    /// channel with the entries of the channel this group has there, held by
    /// nobody.
    pub open spec fn copied_to(&self, copy: &DynChannelGroup) -> bool {
        &&& copy.spec_key_type() == self.spec_key_type()
        &&& copy.spec_value_type() == self.spec_value_type()
        &&& copy.names() == self.names()
        &&& copy.cells().dom() == self.cells().dom()
        &&& copy.versions() == self.versions()
        &&& forall|k: u64| #[trigger]
            copy.cells().contains_key(k) ==> {
                &&& copy.cells()[k].state() == BorrowState::Free
                &&& copy.cells()[k].content() is Some
                &&& self.cells()[k].content() is Some
                &&& copy.cells()[k].content().unwrap().table()
                    == self.cells()[k].content().unwrap().table()
            }
    }

    /// Whether a writer holds some channel of the group.
    fn any_writer(&self) -> (b: bool)
        requires
            self.wf(),
        ensures
            b == self.has_writer(),
    {
        let pairs = names_iter(&self.channel_names);
        let mut i: usize = 0;
        while i < pairs.len()
            invariant
                self.wf(),
                i <= pairs.len(),
                crate::names::lists_pairs(pairs@, self.names()),
                forall|k: int|
                    0 <= k < i ==> self.cells()[(#[trigger] pairs[k]).1].state()
                        != BorrowState::Exclusive,
            decreases pairs.len() - i,
        {
            let key: u64 = pairs[i].1;
            assert(self.names().contains_key(pairs[i as int].0@));
            assert(self.cells().contains_key(self.names()[pairs[i as int].0@]));
            let held = match cells_get(&self.channels, key) {
                None => false,
                Some(cell) => match cell.borrow_state() {
                    BorrowState::Exclusive => true,
                    _ => false,
                },
            };
            if held {
                return true;
            }
            i = i + 1;
        }
        proof {
            if self.has_writer() {
                let k = choose|k: u64| #[trigger]
                    self.cells().contains_key(k) && self.cells()[k].state()
                        == BorrowState::Exclusive;
                let n = choose|n: Seq<char>| #[trigger]
                    self.names().contains_key(n) && self.names()[n] == k;
                let j = choose|j: int| 0 <= j < pairs.len() && (#[trigger] pairs[j]).0@ == n;
                assert(self.cells()[pairs[j].1].state() != BorrowState::Exclusive);
            }
        }
        false
    }

    /// A group of its own with the same names and, under the same
    /// identifiers, copies of the channels, none of them held. Fails with
    /// `BorrowConflict` exactly where a writer holds some channel of the
    /// group: that channel is not here to be copied.
    pub fn try_clone(&self) -> (r: Result<DynChannelGroup, ChannelError>)
        requires
            self.wf(),
        ensures
            r is Err <==> self.has_writer(),
            r is Err ==> r->Err_0 == ChannelError::BorrowConflict,
            r is Ok ==> r.unwrap().wf() && self.copied_to(&r.unwrap()),
    {
        if self.any_writer() {
            return Err(ChannelError::BorrowConflict);
        }
        let copy = DynChannelGroup {
            key_type: self.key_type,
            value_type: self.value_type,
            channel_names: names_clone(&self.channel_names),
            channels: cells_clone(&self.channels),
        };
        proof {
            assert forall|k: u64| #[trigger] copy.cells().contains_key(k) implies {
                &&& copy.cells()[k].state() == BorrowState::Free
                &&& copy.cells()[k].content() is Some
                &&& self.cells()[k].content() is Some
                &&& copy.cells()[k].content().unwrap().table()
                    == self.cells()[k].content().unwrap().table()
                &&& is_canonical(k)
                &&& has_key(copy.names(), k)
                &&& copy.cells()[k].wf(copy.spec_key_type(), copy.spec_value_type())
            } by {
                assert(self.cells().contains_key(k));
                assert(self.cells()[k].state() != BorrowState::Exclusive);
                assert(vstd::pervasive::strictly_cloned(self.cells()[k], copy.cells()[k]));
            }
            assert forall|n: Seq<char>| #[trigger] copy.names().contains_key(n) implies
                copy.cells().contains_key(copy.names()[n]) by {
                assert(self.names().contains_key(n));
                assert(self.cells().dom().contains(self.names()[n]));
            }
            assert(forall|n1: Seq<char>, n2: Seq<char>|
                #![trigger copy.names()[n1], copy.names()[n2]]
                copy.names().contains_key(n1) && copy.names().contains_key(n2)
                    && copy.names()[n1] == copy.names()[n2] ==> n1 == n2);
        }
        Ok(copy)
    }

    /// A snapshot of the group: every channel by name, with the values of
    /// its entries. Fails with `BorrowConflict` exactly where a writer
    /// holds some channel of the group.
    pub fn introspect(&self) -> (r: Result<Vec<(String, Vec<Value>)>, ChannelError>)
        requires
            self.wf(),
        ensures
            r is Err <==> self.has_writer(),
            r is Err ==> r->Err_0 == ChannelError::BorrowConflict,
            r is Ok ==> lists_channels(r.unwrap()@, self.names(), self.cells()),
    {
        let pairs = names_iter(&self.channel_names);
        let mut out: Vec<(String, Vec<Value>)> = Vec::new();
        let mut i: usize = 0;
        while i < pairs.len()
            invariant
                self.wf(),
                i <= pairs.len(),
                out.len() == i,
                crate::names::lists_pairs(pairs@, self.names()),
                forall|k: int|
                    0 <= k < i ==> {
                        &&& (#[trigger] out[k]).0@ == pairs[k].0@
                        &&& self.cells()[pairs[k].1].content() is Some
                        &&& lists_values(
                            out[k].1@,
                            self.cells()[pairs[k].1].content().unwrap().table(),
                        )
                    },
            decreases pairs.len() - i,
        {
            let key: u64 = pairs[i].1;
            assert(self.names().contains_key(pairs[i as int].0@));
            assert(self.cells().contains_key(self.names()[pairs[i as int].0@]));
            let values = match cells_get(&self.channels, key) {
                None => None,
                Some(cell) => match cell.peek() {
                    None => None,
                    Some(channel) => Some(channel.values()),
                },
            };
            match values {
                None => {
                    assert(self.cells().contains_key(key) && self.cells()[key].state()
                        == BorrowState::Exclusive);
                    return Err(ChannelError::BorrowConflict);
                },
                Some(values) => {
                    let name = pairs[i].0.clone();
                    out.push((name, values));
                },
            }
            i = i + 1;
        }
        proof {
            assert(!self.has_writer()) by {
                if self.has_writer() {
                    let k = choose|k: u64| #[trigger]
                        self.cells().contains_key(k) && self.cells()[k].state()
                            == BorrowState::Exclusive;
                    let n = choose|n: Seq<char>| #[trigger]
                        self.names().contains_key(n) && self.names()[n] == k;
                    let j = choose|j: int| 0 <= j < pairs.len() && (#[trigger] pairs[j]).0@ == n;
                    assert(out[j].0@ == n);
                    assert(self.cells()[pairs[j].1].content() is Some);
                }
            }
            assert forall|n: Seq<char>| #[trigger] self.names().contains_key(n) implies exists|
                j: int,
            |
                0 <= j < out.len() && (#[trigger] out[j]).0@ == n by {
                let j = choose|j: int| 0 <= j < pairs.len() && (#[trigger] pairs[j]).0@ == n;
                assert(out[j].0@ == n);
            }
        }
        Ok(out)
    }

    /// While a writer holds a channel, asking for that channel is refused
    /// with `BorrowConflict`, to read as well as to write.
    pub proof fn lemma_writer_excludes(&self, id: RawChannelId)
        requires
            self.registered(id),
            self.state(id) == BorrowState::Exclusive,
        ensures
            self.spec_read(id) == Err::<(), ChannelError>(ChannelError::BorrowConflict),
            self.spec_write(id) == Err::<(), ChannelError>(ChannelError::BorrowConflict),
    {
    }

    /// A channel that nobody holds is handed out, to read as well as to
    /// write.
    pub proof fn lemma_free_is_granted(&self, id: RawChannelId)
        requires
            self.registered(id),
            self.state(id) == BorrowState::Free,
        ensures
            self.spec_read(id) is Ok,
            self.spec_write(id) is Ok,
    {
    }

    /// A channel with any number of readers, short of the largest count,
    /// takes one more, and none with a writer.
    pub proof fn lemma_readers_share(&self, id: RawChannelId, n: nat)
        requires
            self.registered(id),
            self.state(id) == BorrowState::with_readers(n),
            n < u64::MAX,
        ensures
            self.spec_read(id) is Ok,
            self.state(id).spec_acquire_read() == Some(BorrowState::with_readers(n + 1)),
            n >= 1 ==> self.spec_write(id) == Err::<(), ChannelError>(
                ChannelError::BorrowConflict,
            ),
    {
    }

    /// A channel taken out of its group is not found there any more, by
    /// identifier or by name.
    pub proof fn lemma_removed_is_gone(&self, after: &DynChannelGroup, id: RawChannelId)
        requires
            self.wf(),
            self.registered(id),
            self.shrunk_by(after, id),
        ensures
            !after.registered(id),
            after.spec_read(id) == Err::<(), ChannelError>(ChannelError::NotFound),
            after.spec_write(id) == Err::<(), ChannelError>(ChannelError::NotFound),
            forall|n: Seq<char>|
                #![trigger after.names().contains_key(n)]
                self.names().contains_key(n) && self.names()[n] == id.spec_key()
                    ==> !after.names().contains_key(n),
    {
    }

    /// The identifier of a channel that was taken out of the group is not
    /// handed out when a name is ensured next, even where the channel made
    /// then takes the slot of the old one; the group goes on not to know
    /// the old identifier, by lookup or for a borrow.
    pub proof fn lemma_removed_id_is_not_reissued(
        &self,
        removed: &DynChannelGroup,
        after: &DynChannelGroup,
        old_id: RawChannelId,
        name: Seq<char>,
        new_id: RawChannelId,
    )
        requires
            self.wf(),
            self.registered(old_id),
            self.shrunk_by(removed, old_id),
            removed.ensure_post(name, new_id, after),
        ensures
            new_id != old_id,
            !after.registered(old_id),
            !has_key(after.names(), old_id.spec_key()),
            after.spec_read(old_id) == Err::<(), ChannelError>(ChannelError::NotFound),
            after.spec_write(old_id) == Err::<(), ChannelError>(ChannelError::NotFound),
    {
        lemma_decoding(old_id.spec_key());
        lemma_retired_version_differs(key_version(old_id.spec_key()));
        lemma_stale_key_is_not_reissued(
            removed.names(),
            removed.cells(),
            removed.versions(),
            after.names(),
            after.cells(),
            after.versions(),
            removed.spec_key_type(),
            removed.spec_value_type(),
            name,
            new_id,
            old_id.spec_key(),
        );
    }

    /// Once a name is ensured it is found: lookup by name gives the
    /// identifier, the identifier is registered under that name and no
    /// other, and a reader is let in unless a writer holds the channel or
    /// the count of readers is at its largest.
    pub proof fn lemma_ensured_is_found(
        &self,
        after: &DynChannelGroup,
        name: Seq<char>,
        id: RawChannelId,
    )
        requires
            self.wf(),
            after.wf(),
            self.ensure_post(name, id, after),
        ensures
            after.names().contains_key(name),
            RawChannelId::spec_from_key(after.names()[name]) == id,
            has_key(after.names(), id.spec_key()),
            forall|n: Seq<char>|
                after.names().contains_key(n) && #[trigger] after.names()[n] == id.spec_key()
                    ==> n == name,
            after.registered(id),
            after.state(id).spec_acquire_read() is Some ==> after.spec_read(id) is Ok,
            !self.names().contains_key(name) ==> after.spec_read(id) is Ok && after.spec_write(id)
                is Ok,
    {
    }
}

} // verus!
