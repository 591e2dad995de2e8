//! The boundary to a scripting caller: the shapes a foreign value can have,
//! and the two-way conversion between them and the crate's identifiers and
//! values. A value of the wrong shape is refused, never replaced.

use crate::handle::Handle;
use crate::ids::{ChannelKey, FaceId, HalfEdgeId, VertexId};
use crate::tags::{ChannelError, ChannelKeyType, ChannelValueType};
use crate::values::{ChannelValue, Scalar, Value, Vec2, Vec3, Vec4};
use vstd::prelude::*;

verus! {

/// A value as the scripting side holds it. Numbers are bit patterns of their
/// single-precision encoding; tuples are fixed-length runs of such numbers.
#[derive(Clone, Copy, PartialEq, Eq, Hash, Debug, Structural)]
pub enum ForeignValue {
    Nil,
    Boolean(bool),
    Integer(i64),
    Number(u32),
    Tuple2(u32, u32),
    Tuple3(u32, u32, u32),
    Tuple4(u32, u32, u32, u32),
    /// Anything else: text, functions, tables of other shapes.
    Other,
}

/// The signed number with the same 64 bits as `key`.
pub open spec fn spec_to_signed(key: u64) -> i64 {
    if key <= i64::MAX as u64 {
        key as i64
    } else {
        (key - 0x1_0000_0000_0000_0000) as i64
    }
}

/// The unsigned number with the same 64 bits as `i`.
pub open spec fn spec_to_unsigned(i: i64) -> u64 {
    if i >= 0 {
        i as u64
    } else {
        (i + 0x1_0000_0000_0000_0000) as u64
    }
}

pub fn to_signed(key: u64) -> (i: i64)
    ensures
        i == spec_to_signed(key),
        spec_to_unsigned(i) == key,
{
    if key <= i64::MAX as u64 {
        key as i64
    } else {
        let below: u64 = u64::MAX - key;
        -(below as i64) - 1
    }
}

pub fn to_unsigned(i: i64) -> (key: u64)
    ensures
        key == spec_to_unsigned(i),
        spec_to_signed(key) == i,
{
    if i >= 0 {
        i as u64
    } else {
        let above: i64 = i + i64::MAX + 1;
        (above as u64) + (i64::MAX as u64) + 1
    }
}

/// A type with a foreign representation.
pub trait FromToLua: Sized {
    /// Whether `self` is a value that executable code can hold.
    spec fn spec_is_native(self) -> bool;

    /// The foreign representation of `self`.
    spec fn spec_cast_to_lua(self) -> ForeignValue;

    /// The native value that `value` represents, if it has the shape of one.
    spec fn spec_cast_from_lua(value: ForeignValue) -> Option<Self>;

    fn cast_to_lua(self) -> (v: ForeignValue)
        ensures
            v == self.spec_cast_to_lua(),
            self.spec_is_native(),
    ;

    /// The native value that `value` represents; `TypeMismatch` where it
    /// has the wrong shape.
    fn cast_from_lua(value: ForeignValue) -> (r: Result<Self, ChannelError>)
        ensures
            Self::spec_cast_from_lua(value) is Some ==> r == Ok::<Self, ChannelError>(
                Self::spec_cast_from_lua(value).unwrap(),
            ),
            Self::spec_cast_from_lua(value) is None ==> r == Err::<Self, ChannelError>(
                ChannelError::TypeMismatch,
            ),
            r is Ok ==> r.unwrap().spec_is_native(),
    ;

    /// Turning a native value into its foreign representation and back
    /// gives the value itself.
    proof fn lemma_round_trip(x: Self)
        requires
            x.spec_is_native(),
        ensures
            Self::spec_cast_from_lua(x.spec_cast_to_lua()) == Some(x),
    ;
}

/// The foreign representation of a handle: its encoding as a signed integer
/// with the same bits.
pub open spec fn spec_handle_to_lua(h: Handle) -> ForeignValue {
    ForeignValue::Integer(spec_to_signed(h.spec_as_ffi()))
}

pub fn handle_to_lua(h: Handle) -> (v: ForeignValue)
    ensures
        v == spec_handle_to_lua(h),
        h.wf(),
{
    ForeignValue::Integer(to_signed(h.as_ffi()))
}

/// The handle that a foreign value stands for: every integer stands for the
/// handle with the same bits, and nothing else stands for any.
pub open spec fn spec_handle_from_lua(value: ForeignValue) -> Option<Handle> {
    match value {
        ForeignValue::Integer(i) => Some(Handle::spec_from_ffi(spec_to_unsigned(i))),
        _ => None,
    }
}

pub fn handle_from_lua(value: ForeignValue) -> (r: Result<Handle, ChannelError>)
    ensures
        spec_handle_from_lua(value) is Some ==> r == Ok::<Handle, ChannelError>(
            spec_handle_from_lua(value).unwrap(),
        ),
        spec_handle_from_lua(value) is None ==> r == Err::<Handle, ChannelError>(
            ChannelError::TypeMismatch,
        ),
        r is Ok ==> r.unwrap().wf(),
{
    match value {
        ForeignValue::Integer(i) => Ok(Handle::from_ffi(to_unsigned(i))),
        _ => Err(ChannelError::TypeMismatch),
    }
}

/// A valid handle is the one that its own foreign representation stands for.
pub proof fn lemma_handle_round_trip(h: Handle)
    requires
        h.wf(),
    ensures
        spec_handle_from_lua(spec_handle_to_lua(h)) == Some(h),
{
    h.lemma_ffi_round_trip();
}

impl FromToLua for VertexId {
    open spec fn spec_is_native(self) -> bool {
        self.spec_data().wf()
    }

    open spec fn spec_cast_to_lua(self) -> ForeignValue {
        spec_handle_to_lua(self.spec_data())
    }

    open spec fn spec_cast_from_lua(value: ForeignValue) -> Option<VertexId> {
        match spec_handle_from_lua(value) {
            Some(h) => Some(VertexId::spec_from_data(h)),
            None => None,
        }
    }

    fn cast_to_lua(self) -> (v: ForeignValue) {
        handle_to_lua(self.data())
    }

    fn cast_from_lua(value: ForeignValue) -> (r: Result<VertexId, ChannelError>) {
        match handle_from_lua(value) {
            Ok(h) => Ok(VertexId::from_data(h)),
            Err(e) => Err(e),
        }
    }

    proof fn lemma_round_trip(x: VertexId) {
        lemma_handle_round_trip(x.spec_data());
        VertexId::lemma_from_data(x.spec_data());
        VertexId::lemma_data_injective(VertexId::spec_from_data(x.spec_data()), x);
    }
}

impl FromToLua for FaceId {
    open spec fn spec_is_native(self) -> bool {
        self.spec_data().wf()
    }

    open spec fn spec_cast_to_lua(self) -> ForeignValue {
        spec_handle_to_lua(self.spec_data())
    }

    open spec fn spec_cast_from_lua(value: ForeignValue) -> Option<FaceId> {
        match spec_handle_from_lua(value) {
            Some(h) => Some(FaceId::spec_from_data(h)),
            None => None,
        }
    }

    fn cast_to_lua(self) -> (v: ForeignValue) {
        handle_to_lua(self.data())
    }

    fn cast_from_lua(value: ForeignValue) -> (r: Result<FaceId, ChannelError>) {
        match handle_from_lua(value) {
            Ok(h) => Ok(FaceId::from_data(h)),
            Err(e) => Err(e),
        }
    }

    proof fn lemma_round_trip(x: FaceId) {
        lemma_handle_round_trip(x.spec_data());
        FaceId::lemma_from_data(x.spec_data());
        FaceId::lemma_data_injective(FaceId::spec_from_data(x.spec_data()), x);
    }
}

impl FromToLua for HalfEdgeId {
    open spec fn spec_is_native(self) -> bool {
        self.spec_data().wf()
    }

    open spec fn spec_cast_to_lua(self) -> ForeignValue {
        spec_handle_to_lua(self.spec_data())
    }

    open spec fn spec_cast_from_lua(value: ForeignValue) -> Option<HalfEdgeId> {
        match spec_handle_from_lua(value) {
            Some(h) => Some(HalfEdgeId::spec_from_data(h)),
            None => None,
        }
    }

    fn cast_to_lua(self) -> (v: ForeignValue) {
        handle_to_lua(self.data())
    }

    fn cast_from_lua(value: ForeignValue) -> (r: Result<HalfEdgeId, ChannelError>) {
        match handle_from_lua(value) {
            Ok(h) => Ok(HalfEdgeId::from_data(h)),
            Err(e) => Err(e),
        }
    }

    proof fn lemma_round_trip(x: HalfEdgeId) {
        lemma_handle_round_trip(x.spec_data());
        HalfEdgeId::lemma_from_data(x.spec_data());
        HalfEdgeId::lemma_data_injective(HalfEdgeId::spec_from_data(x.spec_data()), x);
    }
}

impl FromToLua for bool {
    open spec fn spec_is_native(self) -> bool {
        true
    }

    open spec fn spec_cast_to_lua(self) -> ForeignValue {
        ForeignValue::Boolean(self)
    }

    open spec fn spec_cast_from_lua(value: ForeignValue) -> Option<bool> {
        match value {
            ForeignValue::Boolean(b) => Some(b),
            _ => None,
        }
    }

    fn cast_to_lua(self) -> (v: ForeignValue) {
        ForeignValue::Boolean(self)
    }

    fn cast_from_lua(value: ForeignValue) -> (r: Result<bool, ChannelError>) {
        match value {
            ForeignValue::Boolean(b) => Ok(b),
            _ => Err(ChannelError::TypeMismatch),
        }
    }

    proof fn lemma_round_trip(x: bool) {
    }
}

impl FromToLua for Scalar {
    open spec fn spec_is_native(self) -> bool {
        true
    }

    open spec fn spec_cast_to_lua(self) -> ForeignValue {
        ForeignValue::Number(self.bits)
    }

    open spec fn spec_cast_from_lua(value: ForeignValue) -> Option<Scalar> {
        match value {
            ForeignValue::Number(bits) => Some(Scalar { bits }),
            _ => None,
        }
    }

    fn cast_to_lua(self) -> (v: ForeignValue) {
        ForeignValue::Number(self.bits)
    }

    fn cast_from_lua(value: ForeignValue) -> (r: Result<Scalar, ChannelError>) {
        match value {
            ForeignValue::Number(bits) => Ok(Scalar { bits }),
            _ => Err(ChannelError::TypeMismatch),
        }
    }

    proof fn lemma_round_trip(x: Scalar) {
    }
}

impl FromToLua for Vec2 {
    open spec fn spec_is_native(self) -> bool {
        true
    }

    open spec fn spec_cast_to_lua(self) -> ForeignValue {
        ForeignValue::Tuple2(self.x, self.y)
    }

    open spec fn spec_cast_from_lua(value: ForeignValue) -> Option<Vec2> {
        match value {
            ForeignValue::Tuple2(x, y) => Some(Vec2 { x, y }),
            _ => None,
        }
    }

    fn cast_to_lua(self) -> (v: ForeignValue) {
        ForeignValue::Tuple2(self.x, self.y)
    }

    fn cast_from_lua(value: ForeignValue) -> (r: Result<Vec2, ChannelError>) {
        match value {
            ForeignValue::Tuple2(x, y) => Ok(Vec2 { x, y }),
            _ => Err(ChannelError::TypeMismatch),
        }
    }

    proof fn lemma_round_trip(x: Vec2) {
    }
}

impl FromToLua for Vec3 {
    open spec fn spec_is_native(self) -> bool {
        true
    }

    open spec fn spec_cast_to_lua(self) -> ForeignValue {
        ForeignValue::Tuple3(self.x, self.y, self.z)
    }

    open spec fn spec_cast_from_lua(value: ForeignValue) -> Option<Vec3> {
        match value {
            ForeignValue::Tuple3(x, y, z) => Some(Vec3 { x, y, z }),
            _ => None,
        }
    }

    fn cast_to_lua(self) -> (v: ForeignValue) {
        ForeignValue::Tuple3(self.x, self.y, self.z)
    }

    fn cast_from_lua(value: ForeignValue) -> (r: Result<Vec3, ChannelError>) {
        match value {
            ForeignValue::Tuple3(x, y, z) => Ok(Vec3 { x, y, z }),
            _ => Err(ChannelError::TypeMismatch),
        }
    }

    proof fn lemma_round_trip(x: Vec3) {
    }
}

impl FromToLua for Vec4 {
    open spec fn spec_is_native(self) -> bool {
        true
    }

    open spec fn spec_cast_to_lua(self) -> ForeignValue {
        ForeignValue::Tuple4(self.x, self.y, self.z, self.w)
    }

    open spec fn spec_cast_from_lua(value: ForeignValue) -> Option<Vec4> {
        match value {
            ForeignValue::Tuple4(x, y, z, w) => Some(Vec4 { x, y, z, w }),
            _ => None,
        }
    }

    fn cast_to_lua(self) -> (v: ForeignValue) {
        ForeignValue::Tuple4(self.x, self.y, self.z, self.w)
    }

    fn cast_from_lua(value: ForeignValue) -> (r: Result<Vec4, ChannelError>) {
        match value {
            ForeignValue::Tuple4(x, y, z, w) => Ok(Vec4 { x, y, z, w }),
            _ => Err(ChannelError::TypeMismatch),
        }
    }

    proof fn lemma_round_trip(x: Vec4) {
    }
}

/// The handle that `key` stands for when it is read as an identifier of
/// the family `kty`. One arm per family: each converts through its own
/// identifier type, and all families share one encoding.
pub fn key_from_lua(kty: ChannelKeyType, key: ForeignValue) -> (r: Result<Handle, ChannelError>)
    ensures
        spec_handle_from_lua(key) is Some ==> r == Ok::<Handle, ChannelError>(
            spec_handle_from_lua(key).unwrap(),
        ),
        spec_handle_from_lua(key) is None ==> r == Err::<Handle, ChannelError>(
            ChannelError::TypeMismatch,
        ),
        r is Ok ==> r.unwrap().wf(),
{
    proof {
        if spec_handle_from_lua(key) is Some {
            let h = spec_handle_from_lua(key).unwrap();
            VertexId::lemma_from_data(h);
            FaceId::lemma_from_data(h);
            HalfEdgeId::lemma_from_data(h);
        }
    }
    match kty {
        ChannelKeyType::VertexId => match VertexId::cast_from_lua(key) {
            Ok(id) => Ok(id.data()),
            Err(e) => Err(e),
        },
        ChannelKeyType::FaceId => match FaceId::cast_from_lua(key) {
            Ok(id) => Ok(id.data()),
            Err(e) => Err(e),
        },
        ChannelKeyType::HalfEdgeId => match HalfEdgeId::cast_from_lua(key) {
            Ok(id) => Ok(id.data()),
            Err(e) => Err(e),
        },
    }
}

impl Value {
    /// The foreign representation of the value carried.
    pub open spec fn spec_cast_to_lua(self) -> ForeignValue {
        match self {
            Value::Vec2(v) => v.spec_cast_to_lua(),
            Value::Vec3(v) => v.spec_cast_to_lua(),
            Value::Vec4(v) => v.spec_cast_to_lua(),
            Value::Scalar(v) => v.spec_cast_to_lua(),
            Value::Flag(v) => v.spec_cast_to_lua(),
        }
    }

    /// The value of type `vty` that `value` represents, if it has the shape
    /// of one.
    pub open spec fn spec_cast_from_lua(vty: ChannelValueType, value: ForeignValue) -> Option<
        Value,
    > {
        match vty {
            ChannelValueType::Vec2 => match Vec2::spec_cast_from_lua(value) {
                Some(v) => Some(Value::Vec2(v)),
                None => None,
            },
            ChannelValueType::Vec3 => match Vec3::spec_cast_from_lua(value) {
                Some(v) => Some(Value::Vec3(v)),
                None => None,
            },
            ChannelValueType::Vec4 => match Vec4::spec_cast_from_lua(value) {
                Some(v) => Some(Value::Vec4(v)),
                None => None,
            },
            ChannelValueType::F32 => match Scalar::spec_cast_from_lua(value) {
                Some(v) => Some(Value::Scalar(v)),
                None => None,
            },
            ChannelValueType::bool => match bool::spec_cast_from_lua(value) {
                Some(v) => Some(Value::Flag(v)),
                None => None,
            },
        }
    }

    pub fn cast_to_lua(self) -> (v: ForeignValue)
        ensures
            v == self.spec_cast_to_lua(),
    {
        match self {
            Value::Vec2(v) => v.cast_to_lua(),
            Value::Vec3(v) => v.cast_to_lua(),
            Value::Vec4(v) => v.cast_to_lua(),
            Value::Scalar(v) => v.cast_to_lua(),
            Value::Flag(v) => v.cast_to_lua(),
        }
    }

    /// The value of type `vty` that `value` represents; `TypeMismatch` where
    /// it has the wrong shape for that type. One arm per value type.
    pub fn cast_from_lua(vty: ChannelValueType, value: ForeignValue) -> (r: Result<
        Value,
        ChannelError,
    >)
        ensures
            Value::spec_cast_from_lua(vty, value) is Some ==> r == Ok::<Value, ChannelError>(
                Value::spec_cast_from_lua(vty, value).unwrap(),
            ),
            Value::spec_cast_from_lua(vty, value) is None ==> r == Err::<Value, ChannelError>(
                ChannelError::TypeMismatch,
            ),
            r is Ok ==> r.unwrap().spec_value_type() == vty,
    {
        match vty {
            ChannelValueType::Vec2 => match Vec2::cast_from_lua(value) {
                Ok(v) => Ok(v.into_value()),
                Err(e) => Err(e),
            },
            ChannelValueType::Vec3 => match Vec3::cast_from_lua(value) {
                Ok(v) => Ok(v.into_value()),
                Err(e) => Err(e),
            },
            ChannelValueType::Vec4 => match Vec4::cast_from_lua(value) {
                Ok(v) => Ok(v.into_value()),
                Err(e) => Err(e),
            },
            ChannelValueType::F32 => match Scalar::cast_from_lua(value) {
                Ok(v) => Ok(v.into_value()),
                Err(e) => Err(e),
            },
            ChannelValueType::bool => match bool::cast_from_lua(value) {
                Ok(v) => Ok(v.into_value()),
                Err(e) => Err(e),
            },
        }
    }

    /// A value is the one of its own type that its foreign representation
    /// stands for.
    pub proof fn lemma_round_trip(self)
        ensures
            Value::spec_cast_from_lua(self.spec_value_type(), self.spec_cast_to_lua()) == Some(
                self,
            ),
    {
    }
}

} // verus!
