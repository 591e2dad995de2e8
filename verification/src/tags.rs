//! Run-time tags for the element kinds and value types a channel can have,
//! and the error kinds of the channel store.

use vstd::prelude::*;

verus! {

/// The element family whose identifiers key a channel.
#[derive(Clone, Copy, PartialEq, Eq, Hash, Debug, Structural)]
pub enum ChannelKeyType {
    VertexId,
    FaceId,
    HalfEdgeId,
}

/// The type of the values a channel holds.
#[allow(non_camel_case_types)]
#[derive(Clone, Copy, PartialEq, Eq, Hash, Debug, Structural)]
pub enum ChannelValueType {
    Vec2,
    Vec3,
    Vec4,
    F32,
    bool,
}

/// What can go wrong when addressing the channel store. Every error is a
/// value handed back to the direct caller; the store never retries.
#[derive(Clone, Copy, PartialEq, Eq, Hash, Debug, Structural)]
pub enum ChannelError {
    /// No channel, name or id of that kind is registered.
    NotFound,
    /// A channel of that name is already registered in the group.
    AlreadyExists,
    /// The requested borrow is incompatible with the borrows outstanding.
    BorrowConflict,
    /// The tag lies outside the closed set of supported types.
    UnsupportedType,
    /// A foreign value has the wrong shape for the type it should become.
    TypeMismatch,
}

impl ChannelError {
    /// What to tell a person about the error.
    pub open spec fn spec_message(self) -> Seq<char> {
        match self {
            ChannelError::NotFound => "no such channel"@,
            ChannelError::AlreadyExists => "a channel of that name exists already"@,
            ChannelError::BorrowConflict => "the channel is borrowed"@,
            ChannelError::UnsupportedType => "no such channel type"@,
            ChannelError::TypeMismatch => "the value has the wrong type for the channel"@,
        }
    }

    pub fn message(self) -> (s: &'static str)
        ensures
            s@ == self.spec_message(),
    {
        match self {
            ChannelError::NotFound => "no such channel",
            ChannelError::AlreadyExists => "a channel of that name exists already",
            ChannelError::BorrowConflict => "the channel is borrowed",
            ChannelError::UnsupportedType => "no such channel type",
            ChannelError::TypeMismatch => "the value has the wrong type for the channel",
        }
    }
}

/// Number of element kinds.
pub const KEY_TYPE_COUNT: u8 = 3;

/// Number of value types.
pub const VALUE_TYPE_COUNT: u8 = 5;

/// Number of (element kind, value type) pairings.
pub const GROUP_COUNT: u8 = 15;

impl ChannelKeyType {
    /// Position of the tag in declaration order.
    pub open spec fn spec_index(self) -> u8 {
        match self {
            ChannelKeyType::VertexId => 0,
            ChannelKeyType::FaceId => 1,
            ChannelKeyType::HalfEdgeId => 2,
        }
    }

    /// The name under which the tag is exported to dynamic callers.
    pub open spec fn spec_name(self) -> Seq<char> {
        match self {
            ChannelKeyType::VertexId => "VertexId"@,
            ChannelKeyType::FaceId => "FaceId"@,
            ChannelKeyType::HalfEdgeId => "HalfEdgeId"@,
        }
    }

    pub fn index(self) -> (i: u8)
        ensures
            i == self.spec_index(),
            i < KEY_TYPE_COUNT,
    {
        match self {
            ChannelKeyType::VertexId => 0,
            ChannelKeyType::FaceId => 1,
            ChannelKeyType::HalfEdgeId => 2,
        }
    }

    /// The tag at position `i`; positions past the last tag are unsupported.
    pub fn from_index(i: u8) -> (r: Result<ChannelKeyType, ChannelError>)
        ensures
            i < KEY_TYPE_COUNT ==> r is Ok && r->Ok_0.spec_index() == i,
            i >= KEY_TYPE_COUNT ==> r == Err::<ChannelKeyType, ChannelError>(
                ChannelError::UnsupportedType,
            ),
    {
        if i == 0 {
            Ok(ChannelKeyType::VertexId)
        } else if i == 1 {
            Ok(ChannelKeyType::FaceId)
        } else if i == 2 {
            Ok(ChannelKeyType::HalfEdgeId)
        } else {
            Err(ChannelError::UnsupportedType)
        }
    }

    pub fn name(self) -> (s: &'static str)
        ensures
            s@ == self.spec_name(),
    {
        match self {
            ChannelKeyType::VertexId => "VertexId",
            ChannelKeyType::FaceId => "FaceId",
            ChannelKeyType::HalfEdgeId => "HalfEdgeId",
        }
    }
}

impl ChannelValueType {
    /// Position of the tag in declaration order.
    pub open spec fn spec_index(self) -> u8 {
        match self {
            ChannelValueType::Vec2 => 0,
            ChannelValueType::Vec3 => 1,
            ChannelValueType::Vec4 => 2,
            ChannelValueType::F32 => 3,
            ChannelValueType::bool => 4,
        }
    }

    /// The name under which the tag is exported to dynamic callers.
    pub open spec fn spec_name(self) -> Seq<char> {
        match self {
            ChannelValueType::Vec2 => "Vec2"@,
            ChannelValueType::Vec3 => "Vec3"@,
            ChannelValueType::Vec4 => "Vec4"@,
            ChannelValueType::F32 => "f32"@,
            ChannelValueType::bool => "bool"@,
        }
    }

    pub fn index(self) -> (i: u8)
        ensures
            i == self.spec_index(),
            i < VALUE_TYPE_COUNT,
    {
        match self {
            ChannelValueType::Vec2 => 0,
            ChannelValueType::Vec3 => 1,
            ChannelValueType::Vec4 => 2,
            ChannelValueType::F32 => 3,
            ChannelValueType::bool => 4,
        }
    }

    /// The tag at position `i`; positions past the last tag are unsupported.
    pub fn from_index(i: u8) -> (r: Result<ChannelValueType, ChannelError>)
        ensures
            i < VALUE_TYPE_COUNT ==> r is Ok && r->Ok_0.spec_index() == i,
            i >= VALUE_TYPE_COUNT ==> r == Err::<ChannelValueType, ChannelError>(
                ChannelError::UnsupportedType,
            ),
    {
        if i == 0 {
            Ok(ChannelValueType::Vec2)
        } else if i == 1 {
            Ok(ChannelValueType::Vec3)
        } else if i == 2 {
            Ok(ChannelValueType::Vec4)
        } else if i == 3 {
            Ok(ChannelValueType::F32)
        } else if i == 4 {
            Ok(ChannelValueType::bool)
        } else {
            Err(ChannelError::UnsupportedType)
        }
    }

    pub fn name(self) -> (s: &'static str)
        ensures
            s@ == self.spec_name(),
    {
        match self {
            ChannelValueType::Vec2 => "Vec2",
            ChannelValueType::Vec3 => "Vec3",
            ChannelValueType::Vec4 => "Vec4",
            ChannelValueType::F32 => "f32",
            ChannelValueType::bool => "bool",
        }
    }
}

/// The number that stands for the pairing `(kty, vty)` in the store's table
/// of groups: pairings are numbered row by row, one row per element kind.
pub open spec fn spec_group_code(kty: ChannelKeyType, vty: ChannelValueType) -> u64 {
    (kty.spec_index() * VALUE_TYPE_COUNT + vty.spec_index()) as u64
}

pub fn group_code(kty: ChannelKeyType, vty: ChannelValueType) -> (code: u64)
    ensures
        code == spec_group_code(kty, vty),
        code < GROUP_COUNT,
{
    let k: u8 = kty.index();
    let v: u8 = vty.index();
    (k * VALUE_TYPE_COUNT + v) as u64
}

/// The pairing that `code` stands for. Codes outside the table name no
/// supported pairing.
pub fn group_of_code(code: u64) -> (r: Result<(ChannelKeyType, ChannelValueType), ChannelError>)
    ensures
        code < GROUP_COUNT ==> r is Ok && spec_group_code(r->Ok_0.0, r->Ok_0.1) == code,
        code >= GROUP_COUNT ==> r == Err::<(ChannelKeyType, ChannelValueType), ChannelError>(
            ChannelError::UnsupportedType,
        ),
{
    if code >= GROUP_COUNT as u64 {
        return Err(ChannelError::UnsupportedType);
    }
    let k: u8 = (code / (VALUE_TYPE_COUNT as u64)) as u8;
    let v: u8 = (code % (VALUE_TYPE_COUNT as u64)) as u8;
    match (ChannelKeyType::from_index(k), ChannelValueType::from_index(v)) {
        (Ok(kty), Ok(vty)) => Ok((kty, vty)),
        _ => Err(ChannelError::UnsupportedType),
    }
}

/// Distinct pairings have distinct codes.
pub proof fn group_code_is_injective(
    k1: ChannelKeyType,
    v1: ChannelValueType,
    k2: ChannelKeyType,
    v2: ChannelValueType,
)
    requires
        spec_group_code(k1, v1) == spec_group_code(k2, v2),
    ensures
        k1 == k2,
        v1 == v2,
{
}

} // verus!
