//! What a scripting runtime is told about the channel store: the type tags
//! it may name, each under the name it is exported by.

use crate::tags::{ChannelError, ChannelKeyType, ChannelValueType};
use vstd::prelude::*;

verus! {

/// A tag a script can name: an element kind or a value type.
#[derive(Clone, Copy, PartialEq, Eq, Hash, Debug, Structural)]
pub enum TypeTag {
    Key(ChannelKeyType),
    Value(ChannelValueType),
}

impl TypeTag {
    /// The name under which the tag is exported.
    pub open spec fn spec_name(self) -> Seq<char> {
        match self {
            TypeTag::Key(k) => k.spec_name(),
            TypeTag::Value(v) => v.spec_name(),
        }
    }

    pub fn name(self) -> (s: &'static str)
        ensures
            s@ == self.spec_name(),
    {
        match self {
            TypeTag::Key(k) => k.name(),
            TypeTag::Value(v) => v.name(),
        }
    }
}

/// The tags exported to scripts, in the order they are exported: the three
/// element kinds, then the five value types. Every pairing the store
/// supports can be named.
pub open spec fn exported_tags() -> Seq<TypeTag> {
    seq![
        TypeTag::Key(ChannelKeyType::VertexId),
        TypeTag::Key(ChannelKeyType::FaceId),
        TypeTag::Key(ChannelKeyType::HalfEdgeId),
        TypeTag::Value(ChannelValueType::Vec2),
        TypeTag::Value(ChannelValueType::Vec3),
        TypeTag::Value(ChannelValueType::Vec4),
        TypeTag::Value(ChannelValueType::F32),
        TypeTag::Value(ChannelValueType::bool),
    ]
}

/// Every tag is exported: each element kind and each value type has a row
/// in the table.
pub proof fn lemma_every_tag_is_exported(tag: TypeTag)
    ensures
        is_exported(tag),
{
    let t = exported_tags();
    assert(t[0] == TypeTag::Key(ChannelKeyType::VertexId));
    assert(t[1] == TypeTag::Key(ChannelKeyType::FaceId));
    assert(t[2] == TypeTag::Key(ChannelKeyType::HalfEdgeId));
    assert(t[3] == TypeTag::Value(ChannelValueType::Vec2));
    assert(t[4] == TypeTag::Value(ChannelValueType::Vec3));
    assert(t[5] == TypeTag::Value(ChannelValueType::Vec4));
    assert(t[6] == TypeTag::Value(ChannelValueType::F32));
    assert(t[7] == TypeTag::Value(ChannelValueType::bool));
}

/// The table of types to set up in a scripting runtime: every exported tag
/// with its name.
pub fn load() -> (table: Vec<(&'static str, TypeTag)>)
    ensures
        table.len() == exported_tags().len(),
        forall|i: int|
            0 <= i < table.len() ==> (#[trigger] table[i]).1 == exported_tags()[i] && table[i].0@
                == exported_tags()[i].spec_name(),
{
    let mut table: Vec<(&'static str, TypeTag)> = Vec::new();
    let vertex = TypeTag::Key(ChannelKeyType::VertexId);
    let face = TypeTag::Key(ChannelKeyType::FaceId);
    let halfedge = TypeTag::Key(ChannelKeyType::HalfEdgeId);
    let vec2 = TypeTag::Value(ChannelValueType::Vec2);
    let vec3 = TypeTag::Value(ChannelValueType::Vec3);
    let vec4 = TypeTag::Value(ChannelValueType::Vec4);
    let scalar = TypeTag::Value(ChannelValueType::F32);
    let flag = TypeTag::Value(ChannelValueType::bool);
    table.push((vertex.name(), vertex));
    table.push((face.name(), face));
    table.push((halfedge.name(), halfedge));
    table.push((vec2.name(), vec2));
    table.push((vec3.name(), vec3));
    table.push((vec4.name(), vec4));
    table.push((scalar.name(), scalar));
    table.push((flag.name(), flag));
    table
}

/// Whether scripts may name `tag`.
pub open spec fn is_exported(tag: TypeTag) -> bool {
    exists|i: int| 0 <= i < exported_tags().len() && #[trigger] exported_tags()[i] == tag
}

/// The tag that has the name `name`, if any has.
pub open spec fn spec_resolve(name: Seq<char>) -> Option<TypeTag> {
    if name == "VertexId"@ {
        Some(TypeTag::Key(ChannelKeyType::VertexId))
    } else if name == "FaceId"@ {
        Some(TypeTag::Key(ChannelKeyType::FaceId))
    } else if name == "HalfEdgeId"@ {
        Some(TypeTag::Key(ChannelKeyType::HalfEdgeId))
    } else if name == "Vec2"@ {
        Some(TypeTag::Value(ChannelValueType::Vec2))
    } else if name == "Vec3"@ {
        Some(TypeTag::Value(ChannelValueType::Vec3))
    } else if name == "Vec4"@ {
        Some(TypeTag::Value(ChannelValueType::Vec4))
    } else if name == "f32"@ {
        Some(TypeTag::Value(ChannelValueType::F32))
    } else if name == "bool"@ {
        Some(TypeTag::Value(ChannelValueType::bool))
    } else {
        None
    }
}

/// The element kind that has the name `name`, if any has.
pub open spec fn spec_resolve_key(name: Seq<char>) -> Option<ChannelKeyType> {
    match spec_resolve(name) {
        Some(TypeTag::Key(kty)) => Some(kty),
        _ => None,
    }
}

/// The value type that has the name `name`, if any has.
pub open spec fn spec_resolve_value(name: Seq<char>) -> Option<ChannelValueType> {
    match spec_resolve(name) {
        Some(TypeTag::Value(vty)) => Some(vty),
        _ => None,
    }
}

/// No two tags have one name.
pub proof fn lemma_names_differ(a: TypeTag, b: TypeTag)
    requires
        a.spec_name() == b.spec_name(),
    ensures
        a == b,
{
    reveal_strlit("VertexId");
    reveal_strlit("FaceId");
    reveal_strlit("HalfEdgeId");
    reveal_strlit("Vec2");
    reveal_strlit("Vec3");
    reveal_strlit("Vec4");
    reveal_strlit("f32");
    reveal_strlit("bool");
    assert("VertexId"@.len() == 8);
    assert("FaceId"@.len() == 6);
    assert("HalfEdgeId"@.len() == 10);
    assert("f32"@.len() == 3);
    assert("Vec2"@.len() == 4 && "Vec2"@[3] == '2' && "Vec2"@[0] == 'V');
    assert("Vec3"@.len() == 4 && "Vec3"@[3] == '3' && "Vec3"@[0] == 'V');
    assert("Vec4"@.len() == 4 && "Vec4"@[3] == '4' && "Vec4"@[0] == 'V');
    assert("bool"@.len() == 4 && "bool"@[0] == 'b');
}

/// Every tag is what its own name resolves to, and a name resolves to a
/// tag only if it is that tag's name.
pub proof fn lemma_resolve(tag: TypeTag, name: Seq<char>)
    ensures
        spec_resolve(tag.spec_name()) == Some(tag),
        spec_resolve(name) == Some(tag) ==> tag.spec_name() == name,
{
    if spec_resolve(tag.spec_name()) is Some {
        let found = spec_resolve(tag.spec_name()).unwrap();
        assert(found.spec_name() == tag.spec_name());
        lemma_names_differ(found, tag);
    }
}

/// The tag that a script means by `name`. A name that no tag has fails
/// with `UnsupportedType`; every tag can be named.
pub fn resolve(name: &str) -> (r: Result<TypeTag, ChannelError>)
    ensures
        spec_resolve(name@) is Some ==> r == Ok::<TypeTag, ChannelError>(
            spec_resolve(name@).unwrap(),
        ),
        spec_resolve(name@) is None ==> r == Err::<TypeTag, ChannelError>(
            ChannelError::UnsupportedType,
        ),
{
    let table = load();
    let wanted = name.to_owned();
    let mut i: usize = 0;
    while i < table.len()
        invariant
            i <= table.len(),
            wanted@ == name@,
            table.len() == exported_tags().len(),
            forall|k: int|
                0 <= k < table.len() ==> (#[trigger] table[k]).1 == exported_tags()[k]
                    && table[k].0@ == exported_tags()[k].spec_name(),
            forall|k: int| 0 <= k < i ==> (#[trigger] exported_tags()[k]).spec_name() != name@,
        decreases table.len() - i,
    {
        let candidate = table[i].0.to_owned();
        if candidate == wanted {
            proof {
                lemma_resolve(table[i as int].1, name@);
            }
            return Ok(table[i].1);
        }
        i = i + 1;
    }
    proof {
        if spec_resolve(name@) is Some {
            let tag = spec_resolve(name@).unwrap();
            lemma_resolve(tag, name@);
            lemma_every_tag_is_exported(tag);
            let k = choose|k: int|
                0 <= k < exported_tags().len() && #[trigger] exported_tags()[k] == tag;
            assert(exported_tags()[k].spec_name() != name@);
        }
    }
    Err(ChannelError::UnsupportedType)
}

/// The element kind that a script means by `name`. A name that no element
/// kind has fails with `UnsupportedType`.
pub fn resolve_key(name: &str) -> (r: Result<ChannelKeyType, ChannelError>)
    ensures
        spec_resolve_key(name@) is Some ==> r == Ok::<ChannelKeyType, ChannelError>(
            spec_resolve_key(name@).unwrap(),
        ),
        spec_resolve_key(name@) is None ==> r == Err::<ChannelKeyType, ChannelError>(
            ChannelError::UnsupportedType,
        ),
{
    match resolve(name) {
        Ok(TypeTag::Key(kty)) => Ok(kty),
        _ => Err(ChannelError::UnsupportedType),
    }
}

/// The value type that a script means by `name`. A name that no value type
/// has fails with `UnsupportedType`.
pub fn resolve_value(name: &str) -> (r: Result<ChannelValueType, ChannelError>)
    ensures
        spec_resolve_value(name@) is Some ==> r == Ok::<ChannelValueType, ChannelError>(
            spec_resolve_value(name@).unwrap(),
        ),
        spec_resolve_value(name@) is None ==> r == Err::<ChannelValueType, ChannelError>(
            ChannelError::UnsupportedType,
        ),
{
    match resolve(name) {
        Ok(TypeTag::Value(vty)) => Ok(vty),
        _ => Err(ChannelError::UnsupportedType),
    }
}

} // verus!
