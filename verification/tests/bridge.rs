use mesh_channels::bridge::{handle_from_lua, handle_to_lua, key_from_lua, ForeignValue, FromToLua};
use mesh_channels::handle::Handle;
use mesh_channels::ids::{ChannelKey, FaceId, HalfEdgeId, VertexId};
use mesh_channels::tags::{ChannelError, ChannelKeyType, ChannelValueType};
use mesh_channels::values::{ChannelValue, Scalar, Value, Vec2, Vec3, Vec4};

fn sample_keys() -> Vec<u64> {
    vec![
        0x0000_0001_0000_0000,
        0x0000_0001_0000_0001,
        0x0000_0003_0000_0001,
        0x7fff_ffff_ffff_fffe,
        0x8000_0001_0000_0005,
        0xffff_ffff_ffff_ffff,
    ]
}

fn sample_bits() -> Vec<u32> {
    vec![
        0,
        1.0f32.to_bits(),
        (-0.0f32).to_bits(),
        0.1f32.to_bits(),
        f32::MAX.to_bits(),
        f32::MIN_POSITIVE.to_bits(),
        f32::INFINITY.to_bits(),
        f32::NAN.to_bits(),
        0x7fc0_0001,
        u32::MAX,
    ]
}

#[test]
fn identifiers_round_trip_through_the_foreign_side() {
    for key in sample_keys() {
        let h = Handle::from_ffi(key);
        let v = VertexId::from_data(h);
        let f = FaceId::from_data(h);
        let e = HalfEdgeId::from_data(h);
        assert_eq!(VertexId::cast_from_lua(v.cast_to_lua()), Ok(v));
        assert_eq!(FaceId::cast_from_lua(f.cast_to_lua()), Ok(f));
        assert_eq!(HalfEdgeId::cast_from_lua(e.cast_to_lua()), Ok(e));
        assert_eq!(handle_from_lua(handle_to_lua(h)), Ok(h));
    }
}

#[test]
fn values_round_trip_through_the_foreign_side() {
    for a in sample_bits() {
        let s = Scalar { bits: a };
        assert_eq!(Scalar::cast_from_lua(s.cast_to_lua()), Ok(s));
        for b in sample_bits() {
            let v2 = Vec2 { x: a, y: b };
            let v3 = Vec3 { x: a, y: b, z: a ^ b };
            let v4 = Vec4 { x: a, y: b, z: a ^ b, w: !a };
            assert_eq!(Vec2::cast_from_lua(v2.cast_to_lua()), Ok(v2));
            assert_eq!(Vec3::cast_from_lua(v3.cast_to_lua()), Ok(v3));
            assert_eq!(Vec4::cast_from_lua(v4.cast_to_lua()), Ok(v4));
        }
    }
    assert_eq!(bool::cast_from_lua(true.cast_to_lua()), Ok(true));
    assert_eq!(bool::cast_from_lua(false.cast_to_lua()), Ok(false));
}

#[test]
fn erased_values_round_trip_through_the_foreign_side() {
    let values = [
        Value::Vec2(Vec2 { x: 1, y: 2 }),
        Value::Vec3(Vec3 { x: 1, y: 2, z: 3 }),
        Value::Vec4(Vec4 { x: 1, y: 2, z: 3, w: 4 }),
        Value::Scalar(Scalar { bits: 0.25f32.to_bits() }),
        Value::Flag(true),
    ];
    for value in values {
        assert_eq!(Value::cast_from_lua(value.value_type(), value.cast_to_lua()), Ok(value));
    }
}

#[test]
fn foreign_shapes_are_what_the_types_say() {
    assert_eq!(true.cast_to_lua(), ForeignValue::Boolean(true));
    assert_eq!(Scalar { bits: 7 }.cast_to_lua(), ForeignValue::Number(7));
    assert_eq!(Vec2 { x: 1, y: 2 }.cast_to_lua(), ForeignValue::Tuple2(1, 2));
    assert_eq!(Vec3 { x: 1, y: 2, z: 3 }.cast_to_lua(), ForeignValue::Tuple3(1, 2, 3));
    assert_eq!(Vec4 { x: 1, y: 2, z: 3, w: 4 }.cast_to_lua(), ForeignValue::Tuple4(1, 2, 3, 4));
    assert_eq!(Value::Vec3(Vec3 { x: 1, y: 2, z: 3 }).cast_to_lua(), ForeignValue::Tuple3(1, 2, 3));
}

#[test]
fn wrong_foreign_shapes_are_type_mismatches() {
    let all = [
        ForeignValue::Nil,
        ForeignValue::Boolean(true),
        ForeignValue::Integer(3),
        ForeignValue::Number(3),
        ForeignValue::Tuple2(1, 2),
        ForeignValue::Tuple3(1, 2, 3),
        ForeignValue::Tuple4(1, 2, 3, 4),
        ForeignValue::Other,
    ];
    for value in all {
        assert_eq!(
            VertexId::cast_from_lua(value).is_ok(),
            matches!(value, ForeignValue::Integer(_))
        );
        assert_eq!(bool::cast_from_lua(value).is_ok(), matches!(value, ForeignValue::Boolean(_)));
        assert_eq!(Scalar::cast_from_lua(value).is_ok(), matches!(value, ForeignValue::Number(_)));
        assert_eq!(Vec2::cast_from_lua(value).is_ok(), matches!(value, ForeignValue::Tuple2(..)));
        assert_eq!(Vec3::cast_from_lua(value).is_ok(), matches!(value, ForeignValue::Tuple3(..)));
        assert_eq!(Vec4::cast_from_lua(value).is_ok(), matches!(value, ForeignValue::Tuple4(..)));
    }
    assert_eq!(Vec3::cast_from_lua(ForeignValue::Tuple2(1, 2)), Err(ChannelError::TypeMismatch));
    assert_eq!(FaceId::cast_from_lua(ForeignValue::Nil), Err(ChannelError::TypeMismatch));
    assert_eq!(
        Value::cast_from_lua(ChannelValueType::F32, ForeignValue::Integer(1)),
        Err(ChannelError::TypeMismatch)
    );
    assert_eq!(
        Value::cast_from_lua(ChannelValueType::bool, ForeignValue::Nil),
        Err(ChannelError::TypeMismatch)
    );
    assert_eq!(
        key_from_lua(ChannelKeyType::FaceId, ForeignValue::Number(1)),
        Err(ChannelError::TypeMismatch)
    );
}

#[test]
fn every_kind_reads_a_key_the_same_way() {
    for key in sample_keys() {
        let foreign = handle_to_lua(Handle::from_ffi(key));
        for kty in [ChannelKeyType::VertexId, ChannelKeyType::FaceId, ChannelKeyType::HalfEdgeId] {
            assert_eq!(key_from_lua(kty, foreign), Ok(Handle::from_ffi(key)));
        }
    }
}

#[test]
fn values_wrap_and_unwrap_by_their_own_type_only() {
    let v = Vec3 { x: 1, y: 2, z: 3 };
    assert_eq!(v.into_value(), Value::Vec3(v));
    assert_eq!(Vec3::from_value(Value::Vec3(v)), Some(v));
    assert_eq!(Vec2::from_value(Value::Vec3(v)), None);
    assert_eq!(Vec4::from_value(Value::Vec3(v)), None);
    assert_eq!(Scalar::from_value(Value::Vec3(v)), None);
    assert_eq!(bool::from_value(Value::Vec3(v)), None);
    assert_eq!(bool::from_value(Value::Flag(true)), Some(true));
    assert_eq!(Scalar::from_value(Value::Scalar(Scalar { bits: 9 })), Some(Scalar { bits: 9 }));
    let mut erased = Value::Vec3(v);
    assert!(Vec4::from_value_mut(&mut erased).is_none());
    *Vec3::from_value_mut(&mut erased).unwrap() = Vec3 { x: 9, y: 8, z: 7 };
    assert_eq!(erased, Value::Vec3(Vec3 { x: 9, y: 8, z: 7 }));
    assert_eq!(Vec2::value_type(), ChannelValueType::Vec2);
    assert_eq!(Vec3::value_type(), ChannelValueType::Vec3);
    assert_eq!(Vec4::value_type(), ChannelValueType::Vec4);
    assert_eq!(Scalar::value_type(), ChannelValueType::F32);
    assert_eq!(<bool as ChannelValue>::value_type(), ChannelValueType::bool);
    assert_eq!(<Scalar as ChannelValue>::name(), "f32");
    assert_eq!(<bool as ChannelValue>::name(), "bool");
    assert_eq!(<Vec2 as ChannelValue>::name(), "Vec2");
    assert_eq!(<Vec3 as ChannelValue>::name(), "Vec3");
    assert_eq!(<Vec4 as ChannelValue>::name(), "Vec4");
}

#[test]
fn defaults_are_zero_or_false() {
    assert_eq!(Value::default_of(ChannelValueType::Vec2), Value::Vec2(Vec2 { x: 0, y: 0 }));
    assert_eq!(Value::default_of(ChannelValueType::Vec3), Value::Vec3(Vec3 { x: 0, y: 0, z: 0 }));
    assert_eq!(
        Value::default_of(ChannelValueType::Vec4),
        Value::Vec4(Vec4 { x: 0, y: 0, z: 0, w: 0 })
    );
    assert_eq!(
        Value::default_of(ChannelValueType::F32),
        Value::Scalar(Scalar { bits: 0.0f32.to_bits() })
    );
    assert_eq!(Value::default_of(ChannelValueType::bool), Value::Flag(false));
    for vty in [
        ChannelValueType::Vec2,
        ChannelValueType::Vec3,
        ChannelValueType::Vec4,
        ChannelValueType::F32,
        ChannelValueType::bool,
    ] {
        assert_eq!(Value::default_of(vty).value_type(), vty);
    }
}

#[test]
fn value_types_default_to_zero() {
    assert_eq!(Scalar::default(), Scalar { bits: 0 });
    assert_eq!(Scalar::default().bits, 0.0f32.to_bits());
    assert_eq!(Vec2::default(), Vec2 { x: 0, y: 0 });
    assert_eq!(Vec3::default(), Vec3 { x: 0, y: 0, z: 0 });
    assert_eq!(Vec4::default(), Vec4 { x: 0, y: 0, z: 0, w: 0 });
    assert_eq!(Value::default_of(ChannelValueType::Vec3), Vec3::default().into_value());
    assert_eq!(Value::default_of(ChannelValueType::F32), Scalar::default().into_value());
    assert_eq!(Value::default_of(ChannelValueType::bool), bool::default().into_value());
}
