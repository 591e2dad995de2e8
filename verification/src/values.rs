//! The value types a channel can hold. Real numbers are kept as the bit
//! patterns of their single-precision encoding, so that a stored value is
//! handed back exactly as it was given.

use crate::tags::ChannelValueType;
use vstd::prelude::*;

verus! {

/// One real number, as the bit pattern of its single-precision encoding.
#[derive(Clone, Copy, PartialEq, Eq, Hash, Debug, Structural)]
pub struct Scalar {
    pub bits: u32,
}

/// A vector of two real numbers, each as a bit pattern.
#[derive(Clone, Copy, PartialEq, Eq, Hash, Debug, Structural)]
pub struct Vec2 {
    pub x: u32,
    pub y: u32,
}

/// A vector of three real numbers, each as a bit pattern.
#[derive(Clone, Copy, PartialEq, Eq, Hash, Debug, Structural)]
pub struct Vec3 {
    pub x: u32,
    pub y: u32,
    pub z: u32,
}

/// A vector of four real numbers, each as a bit pattern.
#[derive(Clone, Copy, PartialEq, Eq, Hash, Debug, Structural)]
pub struct Vec4 {
    pub x: u32,
    pub y: u32,
    pub z: u32,
    pub w: u32,
}

impl Default for Scalar {
    fn default() -> (v: Scalar)
        ensures
            v == (Scalar { bits: 0 }),
    {
        Scalar { bits: 0 }
    }
}

impl Default for Vec2 {
    fn default() -> (v: Vec2)
        ensures
            v == (Vec2 { x: 0, y: 0 }),
    {
        Vec2 { x: 0, y: 0 }
    }
}

impl Default for Vec3 {
    fn default() -> (v: Vec3)
        ensures
            v == (Vec3 { x: 0, y: 0, z: 0 }),
    {
        Vec3 { x: 0, y: 0, z: 0 }
    }
}

impl Default for Vec4 {
    fn default() -> (v: Vec4)
        ensures
            v == (Vec4 { x: 0, y: 0, z: 0, w: 0 }),
    {
        Vec4 { x: 0, y: 0, z: 0, w: 0 }
    }
}

/// A value of any supported type, carrying its type with it. This is what a
/// channel stores once the static type of its values is forgotten.
#[derive(Clone, Copy, PartialEq, Eq, Hash, Debug, Structural)]
pub enum Value {
    Vec2(Vec2),
    Vec3(Vec3),
    Vec4(Vec4),
    Scalar(Scalar),
    Flag(bool),
}

impl Value {
    /// The type of the value carried.
    pub open spec fn spec_value_type(self) -> ChannelValueType {
        match self {
            Value::Vec2(_) => ChannelValueType::Vec2,
            Value::Vec3(_) => ChannelValueType::Vec3,
            Value::Vec4(_) => ChannelValueType::Vec4,
            Value::Scalar(_) => ChannelValueType::F32,
            Value::Flag(_) => ChannelValueType::bool,
        }
    }

    /// The default value of a type: zero in every lane, or `false`.
    pub open spec fn spec_default_of(vty: ChannelValueType) -> Value {
        match vty {
            ChannelValueType::Vec2 => Value::Vec2(Vec2 { x: 0, y: 0 }),
            ChannelValueType::Vec3 => Value::Vec3(Vec3 { x: 0, y: 0, z: 0 }),
            ChannelValueType::Vec4 => Value::Vec4(Vec4 { x: 0, y: 0, z: 0, w: 0 }),
            ChannelValueType::F32 => Value::Scalar(Scalar { bits: 0 }),
            ChannelValueType::bool => Value::Flag(false),
        }
    }

    pub fn value_type(&self) -> (t: ChannelValueType)
        ensures
            t == self.spec_value_type(),
    {
        match self {
            Value::Vec2(_) => ChannelValueType::Vec2,
            Value::Vec3(_) => ChannelValueType::Vec3,
            Value::Vec4(_) => ChannelValueType::Vec4,
            Value::Scalar(_) => ChannelValueType::F32,
            Value::Flag(_) => ChannelValueType::bool,
        }
    }

    pub fn default_of(vty: ChannelValueType) -> (v: Value)
        ensures
            v == Value::spec_default_of(vty),
            v.spec_value_type() == vty,
    {
        match vty {
            ChannelValueType::Vec2 => Value::Vec2(Vec2 { x: 0, y: 0 }),
            ChannelValueType::Vec3 => Value::Vec3(Vec3 { x: 0, y: 0, z: 0 }),
            ChannelValueType::Vec4 => Value::Vec4(Vec4 { x: 0, y: 0, z: 0, w: 0 }),
            ChannelValueType::F32 => Value::Scalar(Scalar { bits: 0 }),
            ChannelValueType::bool => Value::Flag(false),
        }
    }
}

/// A type whose values a channel can hold. Each such type corresponds to one
/// variant of `Value`: `into_value` wraps a value in it, `from_value` and
/// `from_value_mut` unwrap what is inside a `Value` of that variant.
pub trait ChannelValue: Copy + Sized {
    /// The tag of this type.
    spec fn spec_value_type() -> ChannelValueType;

    /// The value, wrapped.
    spec fn spec_into_value(self) -> Value;

    fn value_type() -> (t: ChannelValueType)
        ensures
            t == Self::spec_value_type(),
    ;

    fn name() -> (s: &'static str)
        ensures
            s@ == Self::spec_value_type().spec_name(),
    ;

    fn into_value(self) -> (v: Value)
        ensures
            v == self.spec_into_value(),
            v.spec_value_type() == Self::spec_value_type(),
    ;

    /// What is inside `v`, if `v` is of this type's variant.
    spec fn spec_from_value(v: Value) -> Option<Self>;

    fn from_value(v: Value) -> (r: Option<Self>)
        ensures
            r == Self::spec_from_value(v),
            r is Some <==> v.spec_value_type() == Self::spec_value_type(),
            r is Some ==> r.unwrap().spec_into_value() == v,
    ;

    fn from_value_mut(v: &mut Value) -> (r: Option<&mut Self>)
        ensures
            r is Some <==> old(v).spec_value_type() == Self::spec_value_type(),
            r is Some ==> r.unwrap().spec_into_value() == *old(v),
            r is Some ==> *final(v) == final(r.unwrap()).spec_into_value(),
            r is None ==> *final(v) == *old(v),
    ;

    /// A wrapped value carries the tag of its type, and unwraps to itself.
    proof fn lemma_into_value(x: Self)
        ensures
            x.spec_into_value().spec_value_type() == Self::spec_value_type(),
            Self::spec_from_value(x.spec_into_value()) == Some(x),
    ;

    /// Exactly the values tagged with this type unwrap, and what comes out
    /// wraps to the value it came from.
    proof fn lemma_from_value(v: Value)
        ensures
            Self::spec_from_value(v) is Some <==> v.spec_value_type() == Self::spec_value_type(),
            Self::spec_from_value(v) is Some ==> Self::spec_from_value(
                v,
            ).unwrap().spec_into_value() == v,
    ;
}

impl ChannelValue for Vec2 {
    open spec fn spec_value_type() -> ChannelValueType {
        ChannelValueType::Vec2
    }

    open spec fn spec_into_value(self) -> Value {
        Value::Vec2(self)
    }

    fn value_type() -> (t: ChannelValueType) {
        ChannelValueType::Vec2
    }

    fn name() -> (s: &'static str) {
        "Vec2"
    }

    fn into_value(self) -> (v: Value) {
        Value::Vec2(self)
    }

    open spec fn spec_from_value(v: Value) -> Option<Vec2> {
        match v {
            Value::Vec2(x) => Some(x),
            _ => None,
        }
    }

    fn from_value(v: Value) -> (r: Option<Vec2>) {
        match v {
            Value::Vec2(x) => Some(x),
            _ => None,
        }
    }

    fn from_value_mut(v: &mut Value) -> (r: Option<&mut Vec2>) {
        match v {
            Value::Vec2(x) => Some(x),
            _ => None,
        }
    }

    proof fn lemma_into_value(x: Vec2) {
    }

    proof fn lemma_from_value(v: Value) {
    }
}

impl ChannelValue for Vec3 {
    open spec fn spec_value_type() -> ChannelValueType {
        ChannelValueType::Vec3
    }

    open spec fn spec_into_value(self) -> Value {
        Value::Vec3(self)
    }

    fn value_type() -> (t: ChannelValueType) {
        ChannelValueType::Vec3
    }

    fn name() -> (s: &'static str) {
        "Vec3"
    }

    fn into_value(self) -> (v: Value) {
        Value::Vec3(self)
    }

    open spec fn spec_from_value(v: Value) -> Option<Vec3> {
        match v {
            Value::Vec3(x) => Some(x),
            _ => None,
        }
    }

    fn from_value(v: Value) -> (r: Option<Vec3>) {
        match v {
            Value::Vec3(x) => Some(x),
            _ => None,
        }
    }

    fn from_value_mut(v: &mut Value) -> (r: Option<&mut Vec3>) {
        match v {
            Value::Vec3(x) => Some(x),
            _ => None,
        }
    }

    proof fn lemma_into_value(x: Vec3) {
    }

    proof fn lemma_from_value(v: Value) {
    }
}

impl ChannelValue for Vec4 {
    open spec fn spec_value_type() -> ChannelValueType {
        ChannelValueType::Vec4
    }

    open spec fn spec_into_value(self) -> Value {
        Value::Vec4(self)
    }

    fn value_type() -> (t: ChannelValueType) {
        ChannelValueType::Vec4
    }

    fn name() -> (s: &'static str) {
        "Vec4"
    }

    fn into_value(self) -> (v: Value) {
        Value::Vec4(self)
    }

    open spec fn spec_from_value(v: Value) -> Option<Vec4> {
        match v {
            Value::Vec4(x) => Some(x),
            _ => None,
        }
    }

    fn from_value(v: Value) -> (r: Option<Vec4>) {
        match v {
            Value::Vec4(x) => Some(x),
            _ => None,
        }
    }

    fn from_value_mut(v: &mut Value) -> (r: Option<&mut Vec4>) {
        match v {
            Value::Vec4(x) => Some(x),
            _ => None,
        }
    }

    proof fn lemma_into_value(x: Vec4) {
    }

    proof fn lemma_from_value(v: Value) {
    }
}

impl ChannelValue for Scalar {
    open spec fn spec_value_type() -> ChannelValueType {
        ChannelValueType::F32
    }

    open spec fn spec_into_value(self) -> Value {
        Value::Scalar(self)
    }

    fn value_type() -> (t: ChannelValueType) {
        ChannelValueType::F32
    }

    fn name() -> (s: &'static str) {
        "f32"
    }

    fn into_value(self) -> (v: Value) {
        Value::Scalar(self)
    }

    open spec fn spec_from_value(v: Value) -> Option<Scalar> {
        match v {
            Value::Scalar(x) => Some(x),
            _ => None,
        }
    }

    fn from_value(v: Value) -> (r: Option<Scalar>) {
        match v {
            Value::Scalar(x) => Some(x),
            _ => None,
        }
    }

    fn from_value_mut(v: &mut Value) -> (r: Option<&mut Scalar>) {
        match v {
            Value::Scalar(x) => Some(x),
            _ => None,
        }
    }

    proof fn lemma_into_value(x: Scalar) {
    }

    proof fn lemma_from_value(v: Value) {
    }
}

impl ChannelValue for bool {
    open spec fn spec_value_type() -> ChannelValueType {
        ChannelValueType::bool
    }

    open spec fn spec_into_value(self) -> Value {
        Value::Flag(self)
    }

    fn value_type() -> (t: ChannelValueType) {
        ChannelValueType::bool
    }

    fn name() -> (s: &'static str) {
        "bool"
    }

    fn into_value(self) -> (v: Value) {
        Value::Flag(self)
    }

    open spec fn spec_from_value(v: Value) -> Option<bool> {
        match v {
            Value::Flag(x) => Some(x),
            _ => None,
        }
    }

    fn from_value(v: Value) -> (r: Option<bool>) {
        match v {
            Value::Flag(x) => Some(x),
            _ => None,
        }
    }

    fn from_value_mut(v: &mut Value) -> (r: Option<&mut bool>) {
        match v {
            Value::Flag(x) => Some(x),
            _ => None,
        }
    }

    proof fn lemma_into_value(x: bool) {
    }

    proof fn lemma_from_value(v: Value) {
    }
}

} // verus!
