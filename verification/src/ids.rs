//! Element identifiers: one family of handles each for vertices, faces and
//! half-edges, and the trait that lets a channel be keyed by any of them.

use crate::handle::Handle;
use crate::tags::ChannelKeyType;
use crate::values::ChannelValue;
use core::marker::PhantomData;
use vstd::prelude::*;

verus! {

/// Identifies a vertex of a mesh.
#[derive(Clone, Copy, PartialEq, Eq, PartialOrd, Ord, Hash, Debug, Structural)]
pub struct VertexId {
    handle: Handle,
}

/// Identifies a face of a mesh.
#[derive(Clone, Copy, PartialEq, Eq, PartialOrd, Ord, Hash, Debug, Structural)]
pub struct FaceId {
    handle: Handle,
}

/// Identifies a half-edge of a mesh.
#[derive(Clone, Copy, PartialEq, Eq, PartialOrd, Ord, Hash, Debug, Structural)]
pub struct HalfEdgeId {
    handle: Handle,
}

/// An identifier family that can key a channel. An identifier is a thin
/// cover over its handle: the handle decides equality, and every valid
/// handle is the handle of exactly one identifier of the family.
pub trait ChannelKey: Copy + Sized {
    /// The tag of this family.
    spec fn spec_key_type() -> ChannelKeyType;

    /// The handle under the identifier.
    spec fn spec_data(self) -> Handle;

    fn key_type() -> (t: ChannelKeyType)
        ensures
            t == Self::spec_key_type(),
    ;

    fn name() -> (s: &'static str)
        ensures
            s@ == Self::spec_key_type().spec_name(),
    ;

    fn data(&self) -> (h: Handle)
        ensures
            h == self.spec_data(),
            h.wf(),
    ;

    /// The identifier over a handle.
    spec fn spec_from_data(h: Handle) -> Self;

    fn from_data(h: Handle) -> (k: Self)
        ensures
            k == Self::spec_from_data(h),
            k.spec_data() == h,
    ;

    /// The identifier over a handle has that handle.
    proof fn lemma_from_data(h: Handle)
        ensures
            Self::spec_from_data(h).spec_data() == h,
    ;

    /// Identifiers of one family with one handle are equal.
    proof fn lemma_data_injective(a: Self, b: Self)
        requires
            a.spec_data() == b.spec_data(),
        ensures
            a == b,
    ;
}

impl VertexId {
    /// The identifier that no vertex has.
    pub fn null() -> (k: VertexId)
        ensures
            k.spec_data().spec_is_null(),
            k.spec_data().generation() == 1,
    {
        VertexId { handle: Handle::null() }
    }
}

impl ChannelKey for VertexId {
    open spec fn spec_key_type() -> ChannelKeyType {
        ChannelKeyType::VertexId
    }

    closed spec fn spec_data(self) -> Handle {
        self.handle
    }

    fn key_type() -> (t: ChannelKeyType) {
        ChannelKeyType::VertexId
    }

    fn name() -> (s: &'static str) {
        "VertexId"
    }

    fn data(&self) -> (h: Handle) {
        proof {
            use_type_invariant(&self.handle);
        }
        self.handle
    }

    closed spec fn spec_from_data(h: Handle) -> VertexId {
        VertexId { handle: h }
    }

    fn from_data(h: Handle) -> (k: VertexId) {
        VertexId { handle: h }
    }

    proof fn lemma_from_data(h: Handle) {
    }

    proof fn lemma_data_injective(a: VertexId, b: VertexId) {
    }
}

impl Default for VertexId {
    fn default() -> (k: VertexId)
        ensures
            k.spec_data().spec_is_null(),
            k.spec_data().generation() == 1,
    {
        VertexId::null()
    }
}

impl FaceId {
    /// The identifier that no face has.
    pub fn null() -> (k: FaceId)
        ensures
            k.spec_data().spec_is_null(),
            k.spec_data().generation() == 1,
    {
        FaceId { handle: Handle::null() }
    }
}

impl ChannelKey for FaceId {
    open spec fn spec_key_type() -> ChannelKeyType {
        ChannelKeyType::FaceId
    }

    closed spec fn spec_data(self) -> Handle {
        self.handle
    }

    fn key_type() -> (t: ChannelKeyType) {
        ChannelKeyType::FaceId
    }

    fn name() -> (s: &'static str) {
        "FaceId"
    }

    fn data(&self) -> (h: Handle) {
        proof {
            use_type_invariant(&self.handle);
        }
        self.handle
    }

    closed spec fn spec_from_data(h: Handle) -> FaceId {
        FaceId { handle: h }
    }

    fn from_data(h: Handle) -> (k: FaceId) {
        FaceId { handle: h }
    }

    proof fn lemma_from_data(h: Handle) {
    }

    proof fn lemma_data_injective(a: FaceId, b: FaceId) {
    }
}

impl Default for FaceId {
    fn default() -> (k: FaceId)
        ensures
            k.spec_data().spec_is_null(),
            k.spec_data().generation() == 1,
    {
        FaceId::null()
    }
}

impl HalfEdgeId {
    /// The identifier that no half-edge has.
    pub fn null() -> (k: HalfEdgeId)
        ensures
            k.spec_data().spec_is_null(),
            k.spec_data().generation() == 1,
    {
        HalfEdgeId { handle: Handle::null() }
    }
}

impl ChannelKey for HalfEdgeId {
    open spec fn spec_key_type() -> ChannelKeyType {
        ChannelKeyType::HalfEdgeId
    }

    closed spec fn spec_data(self) -> Handle {
        self.handle
    }

    fn key_type() -> (t: ChannelKeyType) {
        ChannelKeyType::HalfEdgeId
    }

    fn name() -> (s: &'static str) {
        "HalfEdgeId"
    }

    fn data(&self) -> (h: Handle) {
        proof {
            use_type_invariant(&self.handle);
        }
        self.handle
    }

    closed spec fn spec_from_data(h: Handle) -> HalfEdgeId {
        HalfEdgeId { handle: h }
    }

    fn from_data(h: Handle) -> (k: HalfEdgeId) {
        HalfEdgeId { handle: h }
    }

    proof fn lemma_from_data(h: Handle) {
    }

    proof fn lemma_data_injective(a: HalfEdgeId, b: HalfEdgeId) {
    }
}

impl Default for HalfEdgeId {
    fn default() -> (k: HalfEdgeId)
        ensures
            k.spec_data().spec_is_null(),
            k.spec_data().generation() == 1,
    {
        HalfEdgeId::null()
    }
}

/// Identifies a channel within its group, whatever the group's types.
#[derive(Clone, Copy, PartialEq, Eq, PartialOrd, Ord, Hash, Debug, Structural)]
pub struct RawChannelId {
    handle: Handle,
}

impl RawChannelId {
    /// The handle under the identifier.
    pub closed spec fn spec_data(self) -> Handle {
        self.handle
    }

    /// The identifier over a handle.
    pub closed spec fn spec_from_data(h: Handle) -> RawChannelId {
        RawChannelId { handle: h }
    }

    /// The 64-bit encoding under which the group keeps the channel.
    pub open spec fn spec_key(self) -> u64 {
        self.spec_data().spec_as_ffi()
    }

    /// The identifier that the 64-bit encoding `key` stands for.
    pub open spec fn spec_from_key(key: u64) -> RawChannelId {
        RawChannelId::spec_from_data(Handle::spec_from_ffi(key))
    }

    /// The 64-bit encoding under which the group keeps the channel.
    pub fn key(&self) -> (key: u64)
        ensures
            key == self.spec_key(),
            crate::handle::is_canonical(key),
            self.spec_data().wf(),
            RawChannelId::spec_from_key(key) == *self,
    {
        proof {
            use_type_invariant(&self.handle);
            self.handle.lemma_ffi_round_trip();
        }
        self.handle.as_ffi()
    }

    /// The identifier that `key` stands for.
    pub fn from_key(key: u64) -> (id: RawChannelId)
        ensures
            id == RawChannelId::spec_from_key(key),
            id.spec_data().wf(),
            crate::handle::is_canonical(key) ==> id.spec_key() == key,
    {
        RawChannelId { handle: Handle::from_ffi(key) }
    }

    /// The identifier that no channel has.
    pub fn null() -> (id: RawChannelId)
        ensures
            id.spec_data().spec_is_null(),
            id.spec_data().generation() == 1,
    {
        RawChannelId { handle: Handle::null() }
    }

    pub fn data(&self) -> (h: Handle)
        ensures
            h == self.spec_data(),
            h.wf(),
    {
        proof {
            use_type_invariant(&self.handle);
        }
        self.handle
    }

    pub fn from_data(h: Handle) -> (id: RawChannelId)
        ensures
            id == RawChannelId::spec_from_data(h),
            id.spec_data() == h,
    {
        RawChannelId { handle: h }
    }

    /// An identifier is the one over its own handle, and identifiers with
    /// one handle are equal.
    pub proof fn lemma_data(self)
        ensures
            RawChannelId::spec_from_data(self.spec_data()) == self,
            forall|h: Handle| #[trigger] RawChannelId::spec_from_data(h).spec_data() == h,
    {
    }
}

impl Default for RawChannelId {
    fn default() -> (id: RawChannelId)
        ensures
            id.spec_data().spec_is_null(),
            id.spec_data().generation() == 1,
    {
        RawChannelId::null()
    }
}

/// Identifies a channel from `K` to `V` within the group of that pairing.
#[derive(PartialEq, Eq, Hash, Debug)]
pub struct ChannelId<K: ChannelKey, V: ChannelValue> {
    raw: RawChannelId,
    _phantom: PhantomData<(K, V)>,
}

impl<K: ChannelKey, V: ChannelValue> ChannelId<K, V> {
    /// The identifier with its types forgotten.
    pub closed spec fn spec_raw(self) -> RawChannelId {
        self.raw
    }

    /// The 64-bit encoding under which the group keeps the channel.
    pub open spec fn spec_key(self) -> u64 {
        self.spec_raw().spec_key()
    }

    /// The typed identifier over a raw one.
    pub closed spec fn spec_new(raw: RawChannelId) -> Self {
        ChannelId { raw, _phantom: PhantomData }
    }

    /// The typed identifier over a raw one.
    pub fn new(raw: RawChannelId) -> (id: Self)
        ensures
            id == Self::spec_new(raw),
            id.spec_raw() == raw,
    {
        Self { raw, _phantom: PhantomData }
    }

    pub fn raw(&self) -> (raw: RawChannelId)
        ensures
            raw == self.spec_raw(),
    {
        self.raw
    }

    /// A typed identifier is the one over its own raw identifier, so that
    /// typed identifiers over one raw identifier are equal.
    pub proof fn lemma_spec_new(self)
        ensures
            self == Self::spec_new(self.spec_raw()),
            forall|raw: RawChannelId| #[trigger] Self::spec_new(raw).spec_raw() == raw,
    {
    }
}

impl<K: ChannelKey, V: ChannelValue> Clone for ChannelId<K, V> {
    fn clone(&self) -> (id: Self)
        ensures
            id == *self,
    {
        *self
    }
}

impl<K: ChannelKey, V: ChannelValue> Copy for ChannelId<K, V> {

}

impl<K: ChannelKey, V: ChannelValue> Default for ChannelId<K, V> {
    fn default() -> (id: Self)
        ensures
            id.spec_raw().spec_data().spec_is_null(),
    {
        ChannelId::new(RawChannelId::null())
    }
}

} // verus!
