use mesh_channels::bridge::{ForeignValue, FromToLua};
use mesh_channels::channel::{Channel, DynChannel};
use mesh_channels::handle::Handle;
use mesh_channels::ids::{ChannelKey, FaceId, HalfEdgeId, VertexId};
use mesh_channels::tags::{ChannelError, ChannelKeyType, ChannelValueType};
use mesh_channels::values::{Scalar, Value, Vec2, Vec3, Vec4};

fn vid(index: u32, generation: u32) -> VertexId {
    VertexId::from_data(Handle::from_ffi(((generation as u64) << 32) | index as u64))
}

fn key(index: u32, generation: u32) -> u64 {
    ((generation as u64) << 32) | index as u64
}

#[test]
fn unset_identifiers_read_as_the_default() {
    let scalars: Channel<VertexId, Scalar> = Channel::new();
    let flags: Channel<FaceId, bool> = Channel::default();
    let v2: Channel<HalfEdgeId, Vec2> = Channel::new();
    let v3: Channel<VertexId, Vec3> = Channel::new();
    let v4: Channel<VertexId, Vec4> = Channel::new();
    for (index, generation) in [(0, 1), (1, 1), (7, 3), (1000, 0x7fff_ffff), (u32::MAX, 1)] {
        let h = Handle::from_ffi(key(index, generation));
        assert_eq!(scalars.get(VertexId::from_data(h)), Scalar { bits: 0 });
        assert_eq!(flags.get(FaceId::from_data(h)), false);
        assert_eq!(v2.get(HalfEdgeId::from_data(h)), Vec2 { x: 0, y: 0 });
        assert_eq!(v3.get(VertexId::from_data(h)), Vec3 { x: 0, y: 0, z: 0 });
        assert_eq!(v4.get(VertexId::from_data(h)), Vec4 { x: 0, y: 0, z: 0, w: 0 });
    }
    assert!(scalars.iter().is_empty());
}

#[test]
fn neighbours_of_a_set_identifier_still_read_as_the_default() {
    let mut ch: Channel<VertexId, Scalar> = Channel::new();
    *ch.get_mut(vid(5, 1)).unwrap() = Scalar { bits: 42 };
    assert_eq!(ch.get(vid(5, 1)), Scalar { bits: 42 });
    assert_eq!(ch.get(vid(4, 1)), Scalar { bits: 0 });
    assert_eq!(ch.get(vid(6, 1)), Scalar { bits: 0 });
    assert_eq!(ch.get(vid(5, 3)), Scalar { bits: 0 });
    assert_eq!(ch.get(vid(0, 1)), Scalar { bits: 0 });
}

#[test]
fn set_makes_the_entry_of_an_identifier_without_one() {
    let mut ch: Channel<VertexId, Scalar> = Channel::new();
    assert!(ch.set(vid(3, 1), Scalar { bits: 9 }));
    assert_eq!(ch.get(vid(3, 1)), Scalar { bits: 9 });
    assert_eq!(ch.iter(), vec![(vid(3, 1), Scalar { bits: 9 })]);
    // Every other identifier reads as before.
    assert_eq!(ch.get(vid(2, 1)), Scalar { bits: 0 });
    assert_eq!(ch.get(vid(4, 1)), Scalar { bits: 0 });
    assert_eq!(ch.get(vid(3, 3)), Scalar { bits: 0 });
    assert!(ch.set(vid(3, 1), Scalar { bits: 10 }));
    assert_eq!(ch.get(vid(3, 1)), Scalar { bits: 10 });
    assert!(ch.set(vid(2, 1), Scalar { bits: 11 }));
    assert_eq!(
        ch.iter(),
        vec![(vid(2, 1), Scalar { bits: 11 }), (vid(3, 1), Scalar { bits: 10 })]
    );
    // A newer identifier takes the slot of an older one.
    assert!(ch.set(vid(3, 3), Scalar { bits: 12 }));
    assert_eq!(ch.get(vid(3, 1)), Scalar { bits: 0 });
    assert_eq!(ch.get(vid(3, 3)), Scalar { bits: 12 });
    assert_eq!(
        ch.iter(),
        vec![(vid(2, 1), Scalar { bits: 11 }), (vid(3, 3), Scalar { bits: 12 })]
    );
}

#[test]
fn set_refuses_only_an_identifier_that_cannot_have_an_entry() {
    let mut ch: Channel<VertexId, Scalar> = Channel::new();
    assert!(!ch.set(VertexId::null(), Scalar { bits: 1 }));
    assert!(!ch.set(vid(u32::MAX, 5), Scalar { bits: 1 }));
    assert!(!ch.set(vid(2, 0x8000_0001), Scalar { bits: 1 }));
    assert!(ch.iter().is_empty());
    assert!(ch.set(vid(7, 5), Scalar { bits: 50 }));
    assert!(!ch.set(vid(7, 3), Scalar { bits: 30 }));
    assert!(!ch.set(vid(7, 1), Scalar { bits: 10 }));
    assert_eq!(ch.get(vid(7, 5)), Scalar { bits: 50 });
    assert_eq!(ch.get(vid(7, 3)), Scalar { bits: 0 });
    assert_eq!(ch.iter(), vec![(vid(7, 5), Scalar { bits: 50 })]);
    for (index, generation) in [(0u32, 1u32), (1, 1), (1, 0x7fff_ffff), (9, 3)] {
        let mut fresh: Channel<VertexId, Scalar> = Channel::new();
        assert!(fresh.set(vid(index, generation), Scalar { bits: 77 }));
        assert_eq!(fresh.get(vid(index, generation)), Scalar { bits: 77 });
        assert_eq!(fresh.iter(), vec![(vid(index, generation), Scalar { bits: 77 })]);
    }
}

#[test]
fn get_mut_makes_an_entry_that_holds_the_default() {
    let mut ch: Channel<VertexId, Vec3> = Channel::new();
    assert_eq!(*ch.get_mut(vid(2, 1)).unwrap(), Vec3 { x: 0, y: 0, z: 0 });
    assert_eq!(ch.iter(), vec![(vid(2, 1), Vec3 { x: 0, y: 0, z: 0 })]);
    ch.get_mut(vid(2, 1)).unwrap().y = 5;
    assert_eq!(*ch.get_mut(vid(2, 1)).unwrap(), Vec3 { x: 0, y: 5, z: 0 });
    assert_eq!(ch.get(vid(2, 1)), Vec3 { x: 0, y: 5, z: 0 });
    assert_eq!(ch.iter().len(), 1);
}

#[test]
fn get_mut_refuses_the_null_identifier() {
    let mut ch: Channel<VertexId, bool> = Channel::new();
    assert!(ch.get_mut(VertexId::null()).is_none());
    assert!(ch.get_mut(vid(u32::MAX, 7)).is_none());
    assert!(ch.iter().is_empty());
    assert_eq!(ch.get(VertexId::null()), false);
    assert!(!ch.set(VertexId::null(), true));
}

#[test]
fn get_mut_refuses_an_identifier_older_than_its_slot() {
    let mut ch: Channel<VertexId, Scalar> = Channel::new();
    *ch.get_mut(vid(5, 3)).unwrap() = Scalar { bits: 30 };
    assert!(ch.get_mut(vid(5, 1)).is_none());
    assert_eq!(ch.get(vid(5, 1)), Scalar { bits: 0 });
    assert_eq!(ch.get(vid(5, 3)), Scalar { bits: 30 });
    assert_eq!(ch.iter(), vec![(vid(5, 3), Scalar { bits: 30 })]);
}

#[test]
fn a_newer_identifier_takes_the_slot_of_an_older_one() {
    let mut ch: Channel<VertexId, Scalar> = Channel::new();
    *ch.get_mut(vid(5, 3)).unwrap() = Scalar { bits: 30 };
    assert_eq!(*ch.get_mut(vid(5, 5)).unwrap(), Scalar { bits: 0 });
    assert_eq!(ch.get(vid(5, 3)), Scalar { bits: 0 });
    assert!(!ch.set(vid(5, 3), Scalar { bits: 31 }));
    assert!(ch.get_mut(vid(5, 3)).is_none());
    *ch.get_mut(vid(5, 5)).unwrap() = Scalar { bits: 50 };
    assert_eq!(ch.iter(), vec![(vid(5, 5), Scalar { bits: 50 })]);
}

#[test]
fn generations_are_compared_around_the_clock() {
    let mut ch: Channel<VertexId, Scalar> = Channel::new();
    // An empty slot counts as generation zero: half the range ahead of it
    // is already too far.
    assert!(ch.get_mut(vid(2, 0x8000_0001)).is_none());
    assert!(ch.get_mut(vid(2, 0xffff_ffff)).is_none());
    assert!(ch.iter().is_empty());
    assert!(ch.get_mut(vid(2, 0x7fff_ffff)).is_some());
    assert!(ch.get_mut(vid(3, 1)).is_some());
    // From generation 1, generation 0x8000_0001 is exactly half the range
    // ahead and counts as older; one step less does not.
    assert!(ch.get_mut(vid(3, 0x8000_0001)).is_none());
    assert!(ch.get_mut(vid(3, 0x7fff_ffff)).is_some());
    assert_eq!(
        ch.iter(),
        vec![(vid(2, 0x7fff_ffff), Scalar { bits: 0 }), (vid(3, 0x7fff_ffff), Scalar { bits: 0 })]
    );
}

#[test]
fn iter_lists_entries_by_ascending_index() {
    let mut ch: Channel<VertexId, Scalar> = Channel::new();
    for index in [9u32, 2, 7, 0, 4] {
        *ch.get_mut(vid(index, 1)).unwrap() = Scalar { bits: index * 10 };
    }
    assert_eq!(
        ch.iter(),
        vec![
            (vid(0, 1), Scalar { bits: 0 }),
            (vid(2, 1), Scalar { bits: 20 }),
            (vid(4, 1), Scalar { bits: 40 }),
            (vid(7, 1), Scalar { bits: 70 }),
            (vid(9, 1), Scalar { bits: 90 }),
        ]
    );
    assert_eq!(ch.iter(), ch.iter());
}

#[test]
fn typed_and_untyped_channels_convert_by_their_tags() {
    let mut ch: Channel<VertexId, Vec3> = Channel::new();
    *ch.get_mut(vid(1, 1)).unwrap() = Vec3 { x: 1, y: 2, z: 3 };
    let erased = ch.into_dyn();
    assert_eq!(erased.key_type(), ChannelKeyType::VertexId);
    assert_eq!(erased.value_type(), ChannelValueType::Vec3);
    assert!(matches!(
        Channel::<VertexId, Vec4>::from_dyn(erased),
        Err(ChannelError::TypeMismatch)
    ));
    let erased = DynChannel::new(ChannelKeyType::VertexId, ChannelValueType::Vec3);
    assert!(matches!(
        Channel::<FaceId, Vec3>::from_dyn(erased),
        Err(ChannelError::TypeMismatch)
    ));
    let mut ch: Channel<VertexId, Vec3> = Channel::new();
    *ch.get_mut(vid(1, 1)).unwrap() = Vec3 { x: 1, y: 2, z: 3 };
    let back = Channel::<VertexId, Vec3>::from_dyn(ch.into_dyn()).ok().unwrap();
    assert_eq!(back.get(vid(1, 1)), Vec3 { x: 1, y: 2, z: 3 });
}

#[test]
fn untyped_channel_reads_defaults_and_entries() {
    let mut ch = DynChannel::new(ChannelKeyType::FaceId, ChannelValueType::Vec2);
    let h = Handle::from_ffi(key(4, 1));
    assert_eq!(ch.value(h), Value::Vec2(Vec2 { x: 0, y: 0 }));
    assert_eq!(ch.get_lua(ForeignValue::Integer(key(4, 1) as i64)), Ok(ForeignValue::Tuple2(0, 0)));
    assert_eq!(
        ch.set_lua(ForeignValue::Integer(key(4, 1) as i64), ForeignValue::Tuple2(8, 9)),
        Ok(())
    );
    assert_eq!(ch.value(h), Value::Vec2(Vec2 { x: 8, y: 9 }));
    assert_eq!(ch.get_lua(ForeignValue::Integer(key(4, 1) as i64)), Ok(ForeignValue::Tuple2(8, 9)));
    assert_eq!(ch.get_lua(ForeignValue::Integer(key(5, 1) as i64)), Ok(ForeignValue::Tuple2(0, 0)));
    assert_eq!(ch.entries(), vec![(h, Value::Vec2(Vec2 { x: 8, y: 9 }))]);
    assert_eq!(ch.values(), vec![Value::Vec2(Vec2 { x: 8, y: 9 })]);
}

#[test]
fn untyped_channel_refuses_wrong_shapes_and_keeps_its_contents() {
    let mut ch = DynChannel::new(ChannelKeyType::VertexId, ChannelValueType::F32);
    let k = ForeignValue::Integer(key(1, 1) as i64);
    assert_eq!(ch.set_lua(k, ForeignValue::Number(5)), Ok(()));
    assert_eq!(ch.get_lua(ForeignValue::Nil), Err(ChannelError::TypeMismatch));
    assert_eq!(ch.get_lua(ForeignValue::Number(1)), Err(ChannelError::TypeMismatch));
    assert_eq!(ch.set_lua(ForeignValue::Other, ForeignValue::Number(6)), Err(ChannelError::TypeMismatch));
    assert_eq!(ch.set_lua(k, ForeignValue::Integer(6)), Err(ChannelError::TypeMismatch));
    assert_eq!(ch.set_lua(k, ForeignValue::Tuple3(1, 2, 3)), Err(ChannelError::TypeMismatch));
    assert_eq!(ch.set_lua(k, ForeignValue::Boolean(true)), Err(ChannelError::TypeMismatch));
    assert_eq!(
        ch.set_lua(VertexId::null().cast_to_lua(), ForeignValue::Number(6)),
        Err(ChannelError::NotFound)
    );
    // A wrong value is reported before a key that cannot have an entry.
    assert_eq!(
        ch.set_lua(VertexId::null().cast_to_lua(), ForeignValue::Nil),
        Err(ChannelError::TypeMismatch)
    );
    assert_eq!(ch.get_lua(k), Ok(ForeignValue::Number(5)));
    assert_eq!(ch.values(), vec![Value::Scalar(Scalar { bits: 5 })]);
}

#[test]
fn table_covers_exactly_the_keys_asked_for() {
    let mut ch = DynChannel::new(ChannelKeyType::VertexId, ChannelValueType::F32);
    for index in [1u32, 2, 3] {
        ch.set_lua(ForeignValue::Integer(key(index, 1) as i64), ForeignValue::Number(index * 100))
            .unwrap();
    }
    let keys = vec![key(3, 1), key(9, 1), key(1, 1)];
    assert_eq!(
        ch.to_table(&keys),
        vec![
            (ForeignValue::Integer(key(3, 1) as i64), ForeignValue::Number(300)),
            (ForeignValue::Integer(key(9, 1) as i64), ForeignValue::Number(0)),
            (ForeignValue::Integer(key(1, 1) as i64), ForeignValue::Number(100)),
        ]
    );
    assert!(ch.to_table(&Vec::new()).is_empty());
}

#[test]
fn bulk_write_goes_by_position() {
    let mut ch = DynChannel::new(ChannelKeyType::VertexId, ChannelValueType::bool);
    let keys = vec![key(1, 1), key(2, 1), key(3, 1)];
    let values = vec![ForeignValue::Boolean(true), ForeignValue::Boolean(false), ForeignValue::Boolean(true)];
    assert_eq!(ch.set_from_table(&keys, &values), Ok(()));
    assert_eq!(
        ch.to_table(&keys),
        vec![
            (ForeignValue::Integer(key(1, 1) as i64), ForeignValue::Boolean(true)),
            (ForeignValue::Integer(key(2, 1) as i64), ForeignValue::Boolean(false)),
            (ForeignValue::Integer(key(3, 1) as i64), ForeignValue::Boolean(true)),
        ]
    );
    assert_eq!(ch.values().len(), 3);
}

#[test]
fn bulk_write_stops_at_the_first_failure() {
    let mut ch = DynChannel::new(ChannelKeyType::VertexId, ChannelValueType::F32);
    let keys = vec![key(1, 1), key(2, 1), key(3, 1)];
    assert_eq!(
        ch.set_from_table(&keys, &vec![ForeignValue::Number(1), ForeignValue::Number(2)]),
        Err(ChannelError::TypeMismatch)
    );
    assert!(ch.values().is_empty());
    assert_eq!(
        ch.set_from_table(
            &keys,
            &vec![ForeignValue::Number(1), ForeignValue::Nil, ForeignValue::Number(3)]
        ),
        Err(ChannelError::TypeMismatch)
    );
    assert_eq!(ch.values(), vec![Value::Scalar(Scalar { bits: 1 })]);
    let with_null = vec![key(2, 1), key(u32::MAX, 1), key(3, 1)];
    assert_eq!(
        ch.set_from_table(
            &with_null,
            &vec![ForeignValue::Number(7), ForeignValue::Number(8), ForeignValue::Number(9)]
        ),
        Err(ChannelError::NotFound)
    );
    assert_eq!(
        ch.values(),
        vec![Value::Scalar(Scalar { bits: 1 }), Value::Scalar(Scalar { bits: 7 })]
    );
}

#[test]
fn iter_mut_hands_out_every_entry_in_place() {
    let mut ch: Channel<VertexId, Scalar> = Channel::new();
    assert!(ch.iter_mut().is_empty());
    for index in [9u32, 2, 7, 0, 4] {
        *ch.get_mut(vid(index, 1)).unwrap() = Scalar { bits: index * 10 };
    }
    let ids: Vec<VertexId> = ch.iter_mut().into_iter().map(|(id, _)| id).collect();
    assert_eq!(ids, vec![vid(0, 1), vid(2, 1), vid(4, 1), vid(7, 1), vid(9, 1)]);
    for (id, value) in ch.iter_mut() {
        assert_eq!(value.bits, id.data().idx() * 10);
        value.bits += 1;
    }
    assert_eq!(
        ch.iter(),
        vec![
            (vid(0, 1), Scalar { bits: 1 }),
            (vid(2, 1), Scalar { bits: 21 }),
            (vid(4, 1), Scalar { bits: 41 }),
            (vid(7, 1), Scalar { bits: 71 }),
            (vid(9, 1), Scalar { bits: 91 }),
        ]
    );
    assert_eq!(ch.get(vid(3, 1)), Scalar { bits: 0 });
    let mut flags: Channel<VertexId, bool> = Channel::new();
    *flags.get_mut(vid(1, 1)).unwrap() = false;
    *flags.get_mut(vid(2, 3)).unwrap() = false;
    for (_, flag) in flags.iter_mut() {
        *flag = true;
    }
    assert_eq!(flags.iter(), vec![(vid(1, 1), true), (vid(2, 3), true)]);
}
