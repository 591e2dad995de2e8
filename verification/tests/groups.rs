use mesh_channels::group::DynChannelGroup;
use mesh_channels::handle::Handle;
use mesh_channels::ids::{ChannelId, ChannelKey, FaceId, RawChannelId, VertexId};
use mesh_channels::tags::{ChannelError, ChannelKeyType, ChannelValueType};
use mesh_channels::typed::ChannelGroup;
use mesh_channels::values::{Scalar, Value, Vec3};

fn vid(index: u32) -> VertexId {
    VertexId::from_data(Handle::from_ffi((1u64 << 32) | index as u64))
}

#[test]
fn ensure_is_idempotent() {
    let mut group: ChannelGroup<VertexId, Scalar> = ChannelGroup::new();
    assert_eq!(group.len(), 0);
    let a = group.ensure_channel("size");
    assert_eq!(group.len(), 1);
    let b = group.ensure_channel("size");
    assert_eq!(a, b);
    assert_eq!(group.len(), 1);
    let c = group.ensure_channel("weight");
    assert_ne!(a, c);
    assert_eq!(group.len(), 2);
    assert_eq!(group.ensure_channel("size"), a);
    assert_eq!(group.ensure_channel("weight"), c);
    assert_eq!(group.ensure_channel(""), group.ensure_channel(""));
    assert_eq!(group.len(), 3);
}

#[test]
fn create_fails_exactly_on_a_registered_name() {
    let mut group: ChannelGroup<VertexId, Scalar> = ChannelGroup::default();
    let size = group.create_channel("size").unwrap();
    assert_eq!(group.create_channel("size"), Err(ChannelError::AlreadyExists));
    assert_eq!(group.len(), 1);
    assert_eq!(group.channel_id("size"), Some(size));
    let other = group.create_channel("Size").unwrap();
    assert_ne!(other, size);
    let ensured = group.ensure_channel("mass");
    assert_eq!(group.create_channel("mass"), Err(ChannelError::AlreadyExists));
    assert_eq!(group.channel_id("mass"), Some(ensured));
    assert_eq!(group.len(), 3);
}

#[test]
fn lookups_go_both_ways() {
    let mut group: ChannelGroup<FaceId, Vec3> = ChannelGroup::new();
    let normal = group.ensure_channel("normal");
    let color = group.ensure_channel("color");
    assert_eq!(group.channel_id("normal"), Some(normal));
    assert_eq!(group.channel_id("color"), Some(color));
    assert_eq!(group.channel_id("colour"), None);
    assert_eq!(group.channel_name(normal), Some("normal"));
    assert_eq!(group.channel_name(color), Some("color"));
    assert_eq!(group.channel_name(ChannelId::default()), None);
    assert_eq!(group.channel_name(ChannelId::new(RawChannelId::from_key(0x0000_0001_0000_0063))), None);
}

#[test]
fn removed_channel_is_gone_by_id_and_by_name() {
    let mut group: ChannelGroup<VertexId, Scalar> = ChannelGroup::new();
    let size = group.create_channel("size").unwrap();
    let mass = group.create_channel("mass").unwrap();
    let mut writer = group.write_channel(size).unwrap();
    *writer.channel_mut().get_mut(vid(1)).unwrap() = Scalar { bits: 11 };
    group.release_write(writer).unwrap();
    let removed = group.remove_channel(size).ok().unwrap();
    assert_eq!(removed.get(vid(1)), Scalar { bits: 11 });
    assert_eq!(group.len(), 1);
    assert!(matches!(group.read_channel(size), Err(ChannelError::NotFound)));
    assert!(matches!(group.write_channel(size), Err(ChannelError::NotFound)));
    assert!(matches!(group.remove_channel(size), Err(ChannelError::NotFound)));
    assert_eq!(group.channel_id("size"), None);
    assert_eq!(group.channel_name(size), None);
    assert_eq!(group.channel_id("mass"), Some(mass));
    assert_eq!(group.channel_name(mass), Some("mass"));
    // The name is free again, and the channel made for it is a new one.
    let again = group.create_channel("size").unwrap();
    assert_ne!(again, size);
    assert!(matches!(group.read_channel(size), Err(ChannelError::NotFound)));
    let reader = group.read_channel(again).unwrap();
    assert_eq!(group.channel(&reader).unwrap().get(vid(1)), Scalar { bits: 0 });
}

#[test]
fn unknown_identifiers_are_not_found() {
    let mut group: ChannelGroup<VertexId, Scalar> = ChannelGroup::new();
    assert!(matches!(group.read_channel(ChannelId::default()), Err(ChannelError::NotFound)));
    assert!(matches!(group.write_channel(ChannelId::default()), Err(ChannelError::NotFound)));
    assert!(matches!(group.remove_channel(ChannelId::default()), Err(ChannelError::NotFound)));
    let stranger = ChannelId::new(RawChannelId::from_key(0x0000_0001_0000_0001));
    assert!(matches!(group.read_channel(stranger), Err(ChannelError::NotFound)));
    group.ensure_channel("size");
    let stale = ChannelId::new(RawChannelId::from_key(0x0000_0003_0000_0001));
    assert!(matches!(group.write_channel(stale), Err(ChannelError::NotFound)));
}

#[test]
fn writer_excludes_readers_and_writers_until_it_hands_back() {
    let mut group: ChannelGroup<VertexId, Scalar> = ChannelGroup::new();
    let size = group.ensure_channel("size");
    let other = group.ensure_channel("other");
    let writer = group.write_channel(size).unwrap();
    assert!(matches!(group.read_channel(size), Err(ChannelError::BorrowConflict)));
    assert!(matches!(group.write_channel(size), Err(ChannelError::BorrowConflict)));
    assert!(matches!(group.remove_channel(size), Err(ChannelError::BorrowConflict)));
    // Other channels are not affected.
    let other_writer = group.write_channel(other).unwrap();
    group.release_write(other_writer).unwrap();
    group.release_write(writer).unwrap();
    let reader = group.read_channel(size).unwrap();
    group.release_read(reader).unwrap();
    let writer = group.write_channel(size).unwrap();
    group.release_write(writer).unwrap();
}

#[test]
fn any_number_of_readers_hold_a_channel_together() {
    let mut group: ChannelGroup<VertexId, Scalar> = ChannelGroup::new();
    let size = group.ensure_channel("size");
    let mut guards = Vec::new();
    for _ in 0..500 {
        guards.push(group.read_channel(size).unwrap());
    }
    for guard in guards.iter() {
        assert_eq!(guard.id(), size);
        assert_eq!(group.channel(guard).unwrap().get(vid(1)), Scalar { bits: 0 });
    }
    assert!(matches!(group.write_channel(size), Err(ChannelError::BorrowConflict)));
    assert!(matches!(group.remove_channel(size), Err(ChannelError::BorrowConflict)));
    let last = guards.pop().unwrap();
    for guard in guards {
        group.release_read(guard).unwrap();
        assert!(matches!(group.write_channel(size), Err(ChannelError::BorrowConflict)));
    }
    group.release_read(last).unwrap();
    assert!(group.write_channel(size).is_ok());
}

#[test]
fn guards_of_another_group_are_refused() {
    let mut here: ChannelGroup<VertexId, Scalar> = ChannelGroup::new();
    let mut there: ChannelGroup<VertexId, Scalar> = ChannelGroup::new();
    let id = there.ensure_channel("size");
    let reader = there.read_channel(id).unwrap();
    assert!(matches!(here.channel(&reader), Err(ChannelError::NotFound)));
    assert_eq!(here.release_read(reader), Err(ChannelError::NotFound));
    let reader = there.read_channel(id).unwrap();
    // A channel under the same identifier that nobody reads.
    let twin = here.ensure_channel("twin");
    assert_eq!(twin, id);
    assert!(matches!(here.channel(&reader), Err(ChannelError::BorrowConflict)));
    assert_eq!(here.release_read(reader), Err(ChannelError::BorrowConflict));
    let mut lonely: ChannelGroup<VertexId, Scalar> = ChannelGroup::new();
    // Both readers of the other group are still counted there.
    let writer = there.write_channel(id);
    assert!(matches!(writer, Err(ChannelError::BorrowConflict)));
    let free = here.write_channel(twin).unwrap();
    assert_eq!(lonely.release_write(free), Err(ChannelError::NotFound));
}

#[test]
fn handing_back_to_a_channel_without_writer_is_a_conflict() {
    let mut here: ChannelGroup<VertexId, Scalar> = ChannelGroup::new();
    let mut there: ChannelGroup<VertexId, Scalar> = ChannelGroup::new();
    let a = here.ensure_channel("a");
    let b = there.ensure_channel("b");
    assert_eq!(a, b);
    let mut writer = there.write_channel(b).unwrap();
    *writer.channel_mut().get_mut(vid(1)).unwrap() = Scalar { bits: 5 };
    assert_eq!(here.release_write(writer), Err(ChannelError::BorrowConflict));
    let reader = here.read_channel(a).unwrap();
    assert_eq!(here.channel(&reader).unwrap().get(vid(1)), Scalar { bits: 0 });
}

#[test]
fn what_the_writer_wrote_is_read_afterwards() {
    let mut group: ChannelGroup<VertexId, Vec3> = ChannelGroup::new();
    let position = group.ensure_channel("position");
    let mut writer = group.write_channel(position).unwrap();
    assert_eq!(writer.id(), position);
    for index in [3u32, 1, 2] {
        *writer.channel_mut().get_mut(vid(index)).unwrap() = Vec3 { x: index, y: 0, z: 0 };
    }
    assert_eq!(writer.channel().get(vid(2)), Vec3 { x: 2, y: 0, z: 0 });
    group.release_write(writer).unwrap();
    let reader = group.read_channel(position).unwrap();
    let view = group.channel(&reader).unwrap();
    assert_eq!(view.get(vid(1)), Vec3 { x: 1, y: 0, z: 0 });
    assert_eq!(view.get(vid(4)), Vec3 { x: 0, y: 0, z: 0 });
    assert_eq!(
        view.iter(),
        vec![
            (vid(1), Vec3 { x: 1, y: 0, z: 0 }),
            (vid(2), Vec3 { x: 2, y: 0, z: 0 }),
            (vid(3), Vec3 { x: 3, y: 0, z: 0 }),
        ]
    );
}

#[test]
fn snapshot_lists_every_channel_with_its_values() {
    let mut group: ChannelGroup<VertexId, Scalar> = ChannelGroup::new();
    assert_eq!(group.introspect(), Ok(Vec::new()));
    let size = group.ensure_channel("size");
    group.ensure_channel("empty");
    let mut writer = group.write_channel(size).unwrap();
    *writer.channel_mut().get_mut(vid(2)).unwrap() = Scalar { bits: 20 };
    *writer.channel_mut().get_mut(vid(1)).unwrap() = Scalar { bits: 10 };
    assert_eq!(group.introspect(), Err(ChannelError::BorrowConflict));
    group.release_write(writer).unwrap();
    let reader = group.read_channel(size).unwrap();
    let mut snapshot = group.introspect().unwrap();
    snapshot.sort_by(|a, b| a.0.cmp(&b.0));
    assert_eq!(
        snapshot,
        vec![
            ("empty".to_string(), Vec::new()),
            (
                "size".to_string(),
                vec![Value::Scalar(Scalar { bits: 10 }), Value::Scalar(Scalar { bits: 20 })]
            ),
        ]
    );
    group.release_read(reader).unwrap();
}

#[test]
fn untyped_group_keeps_its_tags_and_names() {
    let mut group = DynChannelGroup::new(ChannelKeyType::FaceId, ChannelValueType::bool);
    assert_eq!(group.key_type(), ChannelKeyType::FaceId);
    assert_eq!(group.value_type(), ChannelValueType::bool);
    let id = group.ensure_channel_dyn("selected");
    assert_eq!(group.ensure_channel_dyn("selected"), id);
    assert_eq!(group.create_channel_dyn("selected"), Err(ChannelError::AlreadyExists));
    assert_eq!(group.channel_id_dyn("selected"), Some(id));
    assert_eq!(group.channel_id_dyn("other"), None);
    assert_eq!(group.channel_name_dyn(id).map(|s| s.as_str()), Some("selected"));
    let writer = group.write_channel_dyn(id).unwrap();
    assert_eq!(writer.id(), id);
    assert_eq!(writer.key_type(), ChannelKeyType::FaceId);
    assert_eq!(writer.value_type(), ChannelValueType::bool);
    assert_eq!(writer.channel().value_type(), ChannelValueType::bool);
    assert!(matches!(group.read_channel_dyn(id), Err(ChannelError::BorrowConflict)));
    group.release_write_dyn(writer).unwrap();
    let reader = group.read_channel_dyn(id).unwrap();
    assert_eq!(reader.id(), id);
    assert_eq!(group.channel_dyn(&reader).unwrap().key_type(), ChannelKeyType::FaceId);
    group.release_read_dyn(reader).unwrap();
    let channel = group.remove_channel_dyn(id).ok().unwrap();
    assert_eq!(channel.value_type(), ChannelValueType::bool);
    assert_eq!(group.len(), 0);
}

#[test]
fn copy_of_a_group_keeps_names_identifiers_and_values() {
    let mut group: ChannelGroup<VertexId, Scalar> = ChannelGroup::new();
    let size = group.ensure_channel("size");
    let mass = group.ensure_channel("mass");
    group.remove_channel(size).ok().unwrap();
    let size = group.ensure_channel("size");
    let mut writer = group.write_channel(size).unwrap();
    *writer.channel_mut().get_mut(vid(4)).unwrap() = Scalar { bits: 44 };
    assert!(matches!(group.try_clone(), Err(ChannelError::BorrowConflict)));
    group.release_write(writer).unwrap();
    let reader = group.read_channel(mass).unwrap();
    let mut copy = group.try_clone().ok().unwrap();
    group.release_read(reader).unwrap();
    assert_eq!(copy.len(), 2);
    assert_eq!(copy.channel_id("size"), Some(size));
    assert_eq!(copy.channel_id("mass"), Some(mass));
    assert_eq!(copy.channel_name(size), Some("size"));
    let removed = copy.remove_channel(size).ok().unwrap();
    assert_eq!(removed.get(vid(4)), Scalar { bits: 44 });
    assert_eq!(removed.clone().iter(), removed.iter());
    assert_eq!(group.len(), 2);
    let writer = copy.write_channel(mass).unwrap();
    copy.release_write(writer).unwrap();
}

#[test]
fn removed_identifier_is_not_handed_out_again() {
    let mut g: ChannelGroup<VertexId, Scalar> = ChannelGroup::default();
    let old = g.ensure_channel("a");
    assert!(g.remove_channel(old).is_ok());
    // The new channel takes the slot of the old one, under a new identifier.
    let new = g.ensure_channel("b");
    assert_ne!(new, old);
    assert_eq!(new.raw().data().idx(), old.raw().data().idx());
    assert_eq!(new.raw().data().version(), old.raw().data().version() + 2);
    assert!(matches!(g.read_channel(old), Err(ChannelError::NotFound)));
    assert!(matches!(g.write_channel(old), Err(ChannelError::NotFound)));
    assert_eq!(g.channel_name(old), None);
    assert_eq!(g.channel_name(new), Some("b"));
    // Over many rounds no identifier comes twice.
    let mut seen = vec![old, new];
    let mut last = new;
    for round in 0..200 {
        assert!(g.remove_channel(last).is_ok());
        let name = format!("round {round}");
        last = g.ensure_channel(&name);
        assert!(!seen.contains(&last));
        for stale in seen.iter() {
            assert!(matches!(g.read_channel(*stale), Err(ChannelError::NotFound)));
            assert_eq!(g.channel_name(*stale), None);
        }
        seen.push(last);
    }
    assert_eq!(g.len(), 1);
}

#[test]
fn ensured_name_is_found_by_name_and_by_identifier() {
    let mut g: ChannelGroup<VertexId, Scalar> = ChannelGroup::default();
    let removed = g.ensure_channel("gone");
    g.remove_channel(removed).ok().unwrap();
    for name in ["", "a", "gone", "a b", "size"] {
        let id = g.ensure_channel(name);
        assert_eq!(g.channel_id(name), Some(id));
        assert_eq!(g.channel_name(id), Some(name));
        let reader = g.read_channel(id).unwrap();
        g.release_read(reader).unwrap();
        let before = g.len();
        assert_eq!(g.ensure_channel(name), id);
        assert_eq!(g.len(), before);
        assert_eq!(g.create_channel(name), Err(ChannelError::AlreadyExists));
        assert_eq!(g.len(), before);
        assert_eq!(g.channel_id(name), Some(id));
    }
    assert_eq!(g.len(), 5);
}
