use mesh_channels::bridge::{ForeignValue, FromToLua};
use mesh_channels::handle::Handle;
use mesh_channels::ids::{ChannelKey, VertexId};
use mesh_channels::store::MeshChannels;
use mesh_channels::tags::{ChannelKeyType, ChannelValueType};
use mesh_channels::values::{Scalar, Value, Vec3, Vec4};
use slotmap::Key;

fn vertex(key: slotmap::DefaultKey) -> VertexId {
    VertexId::from_data(Handle::from_ffi(key.data().as_ffi()))
}

fn scalar(x: f32) -> Scalar {
    Scalar { bits: x.to_bits() }
}

fn vec3(v: glam::Vec3) -> Vec3 {
    Vec3 { x: v.x.to_bits(), y: v.y.to_bits(), z: v.z.to_bits() }
}

fn vec4(v: glam::Vec4) -> Vec4 {
    Vec4 { x: v.x.to_bits(), y: v.y.to_bits(), z: v.z.to_bits(), w: v.w.to_bits() }
}

fn render(value: &Value) -> String {
    match value {
        Value::Vec2(v) => format!("{:?}", glam::Vec2::new(f32::from_bits(v.x), f32::from_bits(v.y))),
        Value::Vec3(v) => format!(
            "{:?}",
            glam::Vec3::new(f32::from_bits(v.x), f32::from_bits(v.y), f32::from_bits(v.z))
        ),
        Value::Vec4(v) => format!(
            "{:?}",
            glam::Vec4::new(
                f32::from_bits(v.x),
                f32::from_bits(v.y),
                f32::from_bits(v.z),
                f32::from_bits(v.w)
            )
        ),
        Value::Scalar(v) => format!("{:?}", f32::from_bits(v.bits)),
        Value::Flag(v) => format!("{:?}", v),
    }
}

fn rendered(
    snapshot: &[((ChannelKeyType, ChannelValueType), Vec<(String, Vec<Value>)>)],
    tags: (ChannelKeyType, ChannelValueType),
    name: &str,
) -> Vec<String> {
    let group = snapshot.iter().find(|entry| entry.0 == tags).expect("group is listed");
    let channel = group.1.iter().find(|entry| entry.0 == name).expect("channel is listed");
    channel.1.iter().map(render).collect()
}

fn to_lua<'lua>(value: ForeignValue) -> mlua::Value<'lua> {
    match value {
        ForeignValue::Nil => mlua::Value::Nil,
        ForeignValue::Boolean(b) => mlua::Value::Boolean(b),
        ForeignValue::Integer(i) => mlua::Value::Integer(i),
        ForeignValue::Number(bits) => mlua::Value::Number(f32::from_bits(bits) as f64),
        _ => mlua::Value::Nil,
    }
}

#[test]
pub fn test_channels() {
    let mut vertices: slotmap::SlotMap<slotmap::DefaultKey, ()> = slotmap::SlotMap::with_key();
    let v1 = vertex(vertices.insert(()));
    let v2 = vertex(vertices.insert(()));
    let v3 = vertex(vertices.insert(()));

    let mut mesh_channels = MeshChannels::default();
    let position = mesh_channels.create_channel::<VertexId, Vec3>("position").unwrap();
    let color = mesh_channels.create_channel::<VertexId, Vec4>("color").unwrap();
    let size = mesh_channels.create_channel::<VertexId, Scalar>("size").unwrap();

    assert!(mesh_channels.channel_id("position").unwrap() == position);
    assert!(mesh_channels.channel_id("color").unwrap() == color);
    assert!(mesh_channels.channel_id("size").unwrap() == size);

    {
        let mut positions = mesh_channels.write_channel(position).unwrap();
        let mut colors = mesh_channels.write_channel(color).unwrap();
        let mut sizes = mesh_channels.write_channel(size).unwrap();

        *positions.channel_mut().get_mut(v1).unwrap() = vec3(glam::Vec3::X);
        *positions.channel_mut().get_mut(v2).unwrap() = vec3(glam::Vec3::Y);
        *positions.channel_mut().get_mut(v3).unwrap() = vec3(glam::Vec3::Z);

        *colors.channel_mut().get_mut(v1).unwrap() = vec4(glam::Vec4::splat(0.0));
        *colors.channel_mut().get_mut(v2).unwrap() = vec4(glam::Vec4::splat(0.5));
        *colors.channel_mut().get_mut(v3).unwrap() = vec4(glam::Vec4::splat(1.0));

        *sizes.channel_mut().get_mut(v1).unwrap() = scalar(0.25);
        *sizes.channel_mut().get_mut(v2).unwrap() = scalar(0.50);
        *sizes.channel_mut().get_mut(v3).unwrap() = scalar(1.0);

        // Re-borrowing the position channel should fail now
        assert!(mesh_channels.read_channel(position).is_err());

        mesh_channels.release_write(positions).unwrap();
        mesh_channels.release_write(colors).unwrap();
        mesh_channels.release_write(sizes).unwrap();
    }

    {
        let positions = mesh_channels.read_channel(position).unwrap();
        let colors = mesh_channels.read_channel(color).unwrap();
        let sizes = mesh_channels.read_channel(size).unwrap();

        assert_eq!(mesh_channels.channel(&positions).unwrap().get(v1), vec3(glam::Vec3::X));
        assert_eq!(mesh_channels.channel(&positions).unwrap().get(v2), vec3(glam::Vec3::Y));
        assert_eq!(mesh_channels.channel(&positions).unwrap().get(v3), vec3(glam::Vec3::Z));

        assert_eq!(mesh_channels.channel(&colors).unwrap().get(v1), vec4(glam::Vec4::splat(0.0)));
        assert_eq!(mesh_channels.channel(&colors).unwrap().get(v2), vec4(glam::Vec4::splat(0.5)));
        assert_eq!(mesh_channels.channel(&colors).unwrap().get(v3), vec4(glam::Vec4::splat(1.0)));

        assert_eq!(mesh_channels.channel(&sizes).unwrap().get(v1), scalar(0.25));
        assert_eq!(mesh_channels.channel(&sizes).unwrap().get(v2), scalar(0.50));
        assert_eq!(mesh_channels.channel(&sizes).unwrap().get(v3), scalar(1.0));

        // Re-reading a channel works, because we only hold read guards
        let again = mesh_channels.read_channel(position);
        assert!(again.is_ok());
        // But trying to write still fails
        assert!(mesh_channels.write_channel(position).is_err());

        mesh_channels.release_read(again.unwrap()).unwrap();
        mesh_channels.release_read(positions).unwrap();
        mesh_channels.release_read(colors).unwrap();
        mesh_channels.release_read(sizes).unwrap();
    }

    // Once the guards are handed back, we can write again
    let writer = mesh_channels.write_channel(position);
    assert!(writer.is_ok());
    mesh_channels.release_write(writer.unwrap()).unwrap();

    // The introspection API can be used to inspect the existing channels
    // without necessarily knowing which channels are registered or their
    // types.
    let introspected = mesh_channels.introspect().unwrap();
    assert_eq!(
        rendered(&introspected, (ChannelKeyType::VertexId, ChannelValueType::Vec4), "color"),
        ["Vec4(0.0, 0.0, 0.0, 0.0)", "Vec4(0.5, 0.5, 0.5, 0.5)", "Vec4(1.0, 1.0, 1.0, 1.0)"]
    );
    assert_eq!(
        rendered(&introspected, (ChannelKeyType::VertexId, ChannelValueType::F32), "size"),
        ["0.25", "0.5", "1.0"]
    );
    assert_eq!(
        rendered(&introspected, (ChannelKeyType::VertexId, ChannelValueType::Vec3), "position"),
        ["Vec3(1.0, 0.0, 0.0)", "Vec3(0.0, 1.0, 0.0)", "Vec3(0.0, 0.0, 1.0)"]
    );

    // Channels can also be read and written through the tags of their
    // types alone. This is mainly used by scripts.
    let dyn_pos = mesh_channels
        .dyn_read_channel_by_name(ChannelKeyType::VertexId, ChannelValueType::F32, "size")
        .unwrap();
    match to_lua(mesh_channels.dyn_channel(&dyn_pos).unwrap().get_lua(v1.cast_to_lua()).unwrap()) {
        mlua::Value::Number(x) if x == 0.25 => {}
        _ => panic!("Expected the number 0.25"),
    }
    mesh_channels.dyn_release_read(dyn_pos).unwrap();
}

#[test]
pub fn test_ensure_channel() {
    let mut mesh_channels = MeshChannels::default();

    let position = mesh_channels.create_channel::<VertexId, Vec3>("position").unwrap();
    assert_eq!(position, mesh_channels.ensure_channel::<VertexId, Vec3>("position"));
}
