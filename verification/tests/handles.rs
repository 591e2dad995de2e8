use mesh_channels::bridge::{to_signed, to_unsigned, ForeignValue, FromToLua};
use mesh_channels::handle::Handle;
use mesh_channels::ids::{ChannelId, ChannelKey, FaceId, HalfEdgeId, RawChannelId, VertexId};
use mesh_channels::script::{load, resolve, resolve_key, resolve_value, TypeTag};
use mesh_channels::tags::{
    group_code, group_of_code, ChannelError, ChannelKeyType, ChannelValueType,
};
use mesh_channels::values::{Scalar, Vec3};
use slotmap::Key;

#[test]
fn handle_encoding_has_generation_high_and_index_low() {
    let h = Handle::from_ffi(0x0000_0003_0000_0007);
    assert_eq!(h.idx(), 7);
    assert_eq!(h.version(), 3);
    assert_eq!(h.as_ffi(), 0x0000_0003_0000_0007);
}

#[test]
fn handle_decoding_forces_the_generation_odd() {
    let h = Handle::from_ffi(0x0000_0004_0000_0009);
    assert_eq!(h.idx(), 9);
    assert_eq!(h.version(), 5);
    assert_eq!(h.as_ffi(), 0x0000_0005_0000_0009);
    assert_eq!(h, Handle::from_ffi(0x0000_0005_0000_0009));
}

#[test]
fn handle_round_trips_through_its_encoding() {
    for key in [
        0x0000_0001_0000_0000u64,
        0x0000_0001_0000_0001,
        0x7fff_ffff_0000_1234,
        0xffff_ffff_ffff_fffe,
        0x8000_0001_8000_0000,
    ] {
        let h = Handle::from_ffi(key);
        assert_eq!(h.as_ffi(), key);
        assert_eq!(Handle::from_ffi(h.as_ffi()), h);
    }
}

#[test]
fn handle_agrees_with_slotmap_keys() {
    for key in [0u64, 1, 0x0000_0001_0000_0001, 0x0000_0002_0000_0001, 0xdead_beef_cafe_f00d, u64::MAX] {
        let theirs = slotmap::KeyData::from_ffi(key).as_ffi();
        assert_eq!(Handle::from_ffi(key).as_ffi(), theirs);
    }
    let mut arena: slotmap::SlotMap<slotmap::DefaultKey, ()> = slotmap::SlotMap::with_key();
    let first = arena.insert(());
    arena.remove(first);
    let second = arena.insert(());
    let h1 = Handle::from_ffi(first.data().as_ffi());
    let h2 = Handle::from_ffi(second.data().as_ffi());
    assert_eq!(h1.as_ffi(), first.data().as_ffi());
    assert_eq!(h2.as_ffi(), second.data().as_ffi());
    assert_eq!(h1.idx(), h2.idx());
    assert_ne!(h1, h2);
}

#[test]
fn null_handle_is_default_and_distinct_from_live_ones() {
    let null = Handle::null();
    assert!(null.is_null());
    assert_eq!(null.idx(), u32::MAX);
    assert_eq!(null.version(), 1);
    assert_eq!(Handle::default(), null);
    assert_eq!(null.as_ffi(), slotmap::DefaultKey::null().data().as_ffi());
    let mut arena: slotmap::SlotMap<slotmap::DefaultKey, ()> = slotmap::SlotMap::with_key();
    let live = Handle::from_ffi(arena.insert(()).data().as_ffi());
    assert!(!live.is_null());
    assert_ne!(live, null);
    assert!(VertexId::default().data().is_null());
    assert!(FaceId::default().data().is_null());
    assert!(HalfEdgeId::default().data().is_null());
    assert!(RawChannelId::default().data().is_null());
    assert!(ChannelId::<VertexId, Vec3>::default().raw().data().is_null());
    assert_eq!(VertexId::null(), VertexId::default());
}

#[test]
fn identifiers_are_equal_exactly_when_index_and_generation_are() {
    let a = VertexId::from_data(Handle::from_ffi(0x0000_0001_0000_0002));
    let b = VertexId::from_data(Handle::from_ffi(0x0000_0001_0000_0002));
    let other_generation = VertexId::from_data(Handle::from_ffi(0x0000_0003_0000_0002));
    let other_index = VertexId::from_data(Handle::from_ffi(0x0000_0001_0000_0003));
    assert_eq!(a, b);
    assert_ne!(a, other_generation);
    assert_ne!(a, other_index);
    assert_eq!(a.data(), Handle::from_ffi(0x0000_0001_0000_0002));
}

#[test]
fn raw_channel_id_round_trips_through_its_key() {
    let id = RawChannelId::from_key(0x0000_0007_0000_0003);
    assert_eq!(id.key(), 0x0000_0007_0000_0003);
    assert_eq!(RawChannelId::from_key(id.key()), id);
    assert_eq!(RawChannelId::from_data(id.data()), id);
    let typed = ChannelId::<VertexId, Scalar>::new(id);
    assert_eq!(typed.raw(), id);
    assert_eq!(typed.clone(), typed);
}

#[test]
fn tags_have_positions_and_names() {
    assert_eq!(ChannelKeyType::VertexId.index(), 0);
    assert_eq!(ChannelKeyType::FaceId.index(), 1);
    assert_eq!(ChannelKeyType::HalfEdgeId.index(), 2);
    assert_eq!(ChannelValueType::Vec2.index(), 0);
    assert_eq!(ChannelValueType::Vec3.index(), 1);
    assert_eq!(ChannelValueType::Vec4.index(), 2);
    assert_eq!(ChannelValueType::F32.index(), 3);
    assert_eq!(ChannelValueType::bool.index(), 4);
    assert_eq!(ChannelKeyType::VertexId.name(), "VertexId");
    assert_eq!(ChannelKeyType::FaceId.name(), "FaceId");
    assert_eq!(ChannelKeyType::HalfEdgeId.name(), "HalfEdgeId");
    assert_eq!(ChannelValueType::Vec2.name(), "Vec2");
    assert_eq!(ChannelValueType::Vec3.name(), "Vec3");
    assert_eq!(ChannelValueType::Vec4.name(), "Vec4");
    assert_eq!(ChannelValueType::F32.name(), "f32");
    assert_eq!(ChannelValueType::bool.name(), "bool");
    assert_eq!(VertexId::key_type(), ChannelKeyType::VertexId);
    assert_eq!(FaceId::key_type(), ChannelKeyType::FaceId);
    assert_eq!(HalfEdgeId::key_type(), ChannelKeyType::HalfEdgeId);
    assert_eq!(<VertexId as ChannelKey>::name(), "VertexId");
    assert_eq!(<FaceId as ChannelKey>::name(), "FaceId");
    assert_eq!(<HalfEdgeId as ChannelKey>::name(), "HalfEdgeId");
}

#[test]
fn tag_positions_out_of_range_are_unsupported() {
    for i in 0..3u8 {
        assert_eq!(ChannelKeyType::from_index(i).unwrap().index(), i);
    }
    for i in 0..5u8 {
        assert_eq!(ChannelValueType::from_index(i).unwrap().index(), i);
    }
    assert_eq!(ChannelKeyType::from_index(3), Err(ChannelError::UnsupportedType));
    assert_eq!(ChannelKeyType::from_index(255), Err(ChannelError::UnsupportedType));
    assert_eq!(ChannelValueType::from_index(5), Err(ChannelError::UnsupportedType));
    assert_eq!(ChannelValueType::from_index(200), Err(ChannelError::UnsupportedType));
}

#[test]
fn group_codes_number_the_pairings_row_by_row() {
    assert_eq!(group_code(ChannelKeyType::VertexId, ChannelValueType::Vec2), 0);
    assert_eq!(group_code(ChannelKeyType::VertexId, ChannelValueType::bool), 4);
    assert_eq!(group_code(ChannelKeyType::FaceId, ChannelValueType::Vec2), 5);
    assert_eq!(group_code(ChannelKeyType::FaceId, ChannelValueType::F32), 8);
    assert_eq!(group_code(ChannelKeyType::HalfEdgeId, ChannelValueType::bool), 14);
    let mut seen = Vec::new();
    for code in 0..15u64 {
        let (kty, vty) = group_of_code(code).unwrap();
        assert_eq!(group_code(kty, vty), code);
        assert!(!seen.contains(&(kty, vty)));
        seen.push((kty, vty));
    }
    assert_eq!(group_of_code(15), Err(ChannelError::UnsupportedType));
    assert_eq!(group_of_code(u64::MAX), Err(ChannelError::UnsupportedType));
}

#[test]
fn exported_type_table_lists_every_kind_and_every_value_type() {
    let table = load();
    assert_eq!(
        table,
        vec![
            ("VertexId", TypeTag::Key(ChannelKeyType::VertexId)),
            ("FaceId", TypeTag::Key(ChannelKeyType::FaceId)),
            ("HalfEdgeId", TypeTag::Key(ChannelKeyType::HalfEdgeId)),
            ("Vec2", TypeTag::Value(ChannelValueType::Vec2)),
            ("Vec3", TypeTag::Value(ChannelValueType::Vec3)),
            ("Vec4", TypeTag::Value(ChannelValueType::Vec4)),
            ("f32", TypeTag::Value(ChannelValueType::F32)),
            ("bool", TypeTag::Value(ChannelValueType::bool)),
        ]
    );
    for (name, tag) in table {
        assert_eq!(tag.name(), name);
    }
    // Every one of the fifteen pairings can be named.
    for k in 0..3u8 {
        for v in 0..5u8 {
            let kty = ChannelKeyType::from_index(k).unwrap();
            let vty = ChannelValueType::from_index(v).unwrap();
            assert_eq!(resolve_key(kty.name()), Ok(kty));
            assert_eq!(resolve_value(vty.name()), Ok(vty));
        }
    }
}

#[test]
fn signed_and_unsigned_share_their_bits() {
    assert_eq!(to_signed(0), 0);
    assert_eq!(to_signed(5), 5);
    assert_eq!(to_signed(i64::MAX as u64), i64::MAX);
    assert_eq!(to_signed(i64::MAX as u64 + 1), i64::MIN);
    assert_eq!(to_signed(u64::MAX), -1);
    assert_eq!(to_unsigned(-1), u64::MAX);
    assert_eq!(to_unsigned(i64::MIN), 1u64 << 63);
    assert_eq!(to_unsigned(7), 7);
    for key in [0u64, 1, 0x0000_0001_0000_0001, 0x8000_0001_0000_0000, u64::MAX] {
        assert_eq!(to_signed(key), key as i64);
        assert_eq!(to_unsigned(to_signed(key)), key);
    }
}

#[test]
fn identifier_is_a_foreign_integer_with_the_same_bits() {
    let id = VertexId::from_data(Handle::from_ffi(0x0000_0001_0000_0002));
    assert_eq!(id.cast_to_lua(), ForeignValue::Integer(0x0000_0001_0000_0002));
    let high = FaceId::from_data(Handle::from_ffi(0x8000_0001_0000_0002));
    assert_eq!(high.cast_to_lua(), ForeignValue::Integer(0x8000_0001_0000_0002u64 as i64));
    assert_eq!(
        HalfEdgeId::cast_from_lua(ForeignValue::Integer(0x0000_0003_0000_0004)),
        Ok(HalfEdgeId::from_data(Handle::from_ffi(0x0000_0003_0000_0004)))
    );
}

#[test]
fn handles_are_ordered_as_slotmap_keys_are() {
    let keys = [
        0x0000_0001_0000_0000u64,
        0x0000_0001_0000_0001,
        0x0000_0003_0000_0001,
        0x0000_0001_0000_0002,
        0x7fff_ffff_0000_0000,
        0xffff_ffff_ffff_ffff,
    ];
    for a in keys {
        for b in keys {
            let ours = Handle::from_ffi(a).cmp(&Handle::from_ffi(b));
            let theirs = slotmap::KeyData::from_ffi(a).cmp(&slotmap::KeyData::from_ffi(b));
            assert_eq!(ours, theirs);
            assert_eq!(
                VertexId::from_data(Handle::from_ffi(a)) < VertexId::from_data(Handle::from_ffi(b)),
                slotmap::KeyData::from_ffi(a) < slotmap::KeyData::from_ffi(b)
            );
        }
    }
}

#[test]
fn scripts_name_every_type_and_nothing_else() {
    for (name, tag) in load() {
        assert_eq!(resolve(name), Ok(tag));
    }
    assert_eq!(resolve("Vec2"), Ok(TypeTag::Value(ChannelValueType::Vec2)));
    assert_eq!(resolve("Vec4"), Ok(TypeTag::Value(ChannelValueType::Vec4)));
    assert_eq!(resolve("bool"), Ok(TypeTag::Value(ChannelValueType::bool)));
    assert_eq!(resolve(""), Err(ChannelError::UnsupportedType));
    assert_eq!(resolve("vertexid"), Err(ChannelError::UnsupportedType));
    assert_eq!(resolve("F32"), Err(ChannelError::UnsupportedType));
    assert_eq!(resolve("Vec5"), Err(ChannelError::UnsupportedType));
    assert_eq!(resolve("Vec"), Err(ChannelError::UnsupportedType));
    assert_eq!(resolve("f64"), Err(ChannelError::UnsupportedType));
    assert_eq!(resolve_key("VertexId"), Ok(ChannelKeyType::VertexId));
    assert_eq!(resolve_key("FaceId"), Ok(ChannelKeyType::FaceId));
    assert_eq!(resolve_key("HalfEdgeId"), Ok(ChannelKeyType::HalfEdgeId));
    assert_eq!(resolve_key("Vec3"), Err(ChannelError::UnsupportedType));
    assert_eq!(resolve_key("EdgeId"), Err(ChannelError::UnsupportedType));
    assert_eq!(resolve_value("Vec2"), Ok(ChannelValueType::Vec2));
    assert_eq!(resolve_value("Vec3"), Ok(ChannelValueType::Vec3));
    assert_eq!(resolve_value("Vec4"), Ok(ChannelValueType::Vec4));
    assert_eq!(resolve_value("f32"), Ok(ChannelValueType::F32));
    assert_eq!(resolve_value("bool"), Ok(ChannelValueType::bool));
    assert_eq!(resolve_value("VertexId"), Err(ChannelError::UnsupportedType));
    assert_eq!(resolve_value("int"), Err(ChannelError::UnsupportedType));
}

#[test]
fn every_error_has_its_own_message() {
    let errors = [
        ChannelError::NotFound,
        ChannelError::AlreadyExists,
        ChannelError::BorrowConflict,
        ChannelError::UnsupportedType,
        ChannelError::TypeMismatch,
    ];
    for (i, a) in errors.iter().enumerate() {
        assert!(!a.message().is_empty());
        for b in errors.iter().skip(i + 1) {
            assert_ne!(a.message(), b.message());
        }
    }
    assert_eq!(ChannelError::NotFound.message(), "no such channel");
    assert_eq!(ChannelError::BorrowConflict.message(), "the channel is borrowed");
}
