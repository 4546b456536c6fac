//! Models, meshes and the trees they are read from.

use s2render::bits::{clamp_unit, f32_above, f32_is_zero, f32_le, f64_to_i64, round_to_small};
use s2render::kv::{Block, Number, Object, Resource, Value};
use s2render::mesh::{decode_mesh_resource, decode_scene_objects, draw_call_flags, DrawCallFlags};
use s2render::model::lowest_level_of;
use s2render::reader::{cstr_text, Reader};
use s2render::text::{
    base_name, decimal_i64, eq_ignore_ascii_case, forward_slashes, hex, split, trim,
};
use s2render::world::parse_object_type_flags;
use s2render::{decode_model, DxgiFormat, LodInfo, MeshError};

fn whole(i: i64) -> Value {
    Value::Number(Number {
        signed: Some(i),
        unsigned: u64::try_from(i).ok(),
        single: (i as f32).to_bits(),
    })
}

fn text(s: &str) -> Value {
    Value::String(s.to_string())
}

fn obj(entries: Vec<(&str, Value)>) -> Value {
    let mut o = Object::new();
    for (k, v) in entries {
        o.push(k, v);
    }
    Value::Object(o)
}

fn draw_call_tree() -> Value {
    obj(vec![
        ("m_material", text("materials/a.vmat")),
        ("m_nPrimitiveType", text("RENDER_PRIM_TRIANGLES")),
        ("m_indexBuffer", obj(vec![("m_hBuffer", whole(0))])),
        ("m_vertexBuffers", Value::Array(vec![obj(vec![("m_hBuffer", whole(0))])])),
        ("m_nBaseVertex", whole(0)),
        ("m_nStartIndex", whole(0)),
        ("m_nIndexCount", whole(3)),
        ("m_nVertexCount", whole(3)),
    ])
}

fn scene_tree() -> Value {
    obj(vec![(
        "m_sceneObjects",
        Value::Array(vec![obj(vec![("m_drawCalls", Value::Array(vec![draw_call_tree()]))])]),
    )])
}

#[test]
fn the_levels_of_a_model() {
    let root = obj(vec![
        ("m_refLODGroupMasks", Value::Array(vec![whole(4), whole(12), whole(8)])),
        ("m_lodGroupSwitchDistances", Value::Array(vec![whole(0), whole(10)])),
    ]);
    let lod = LodInfo::from_kv3(&root);
    assert_eq!(lod.combined_mask, 12);
    assert_eq!(lod.lowest_level, 2);
    assert_eq!(lod.available_levels, vec![2, 3]);
    assert!(lod.is_mesh_in_level(0, 2) && lod.is_mesh_in_level(1, 2));
    assert!(!lod.is_mesh_in_level(2, 2));
    assert_eq!(lod.mesh_mask(1), 12);
    assert_eq!(lowest_level_of(8), 3);
}

#[test]
fn a_model_without_levels_shows_every_mesh() {
    let lod = LodInfo::default();
    assert!(lod.is_mesh_in_level(0, lod.lowest_level));
    assert!(lod.is_mesh_in_level(7, lod.lowest_level));
}

#[test]
fn a_model_lists_its_meshes_and_its_materials() {
    let root = obj(vec![
        ("m_refMeshes", Value::Array(vec![text("models/a.vmesh"), text(""), text("models/c.vmesh")])),
        ("m_refLODGroupMasks", Value::Array(vec![whole(1), whole(1), whole(2)])),
        (
            "m_materialGroups",
            Value::Array(vec![obj(vec![
                ("m_name", text("default")),
                ("m_materials", Value::Array(vec![text("materials/a.vmat"), whole(3)])),
            ])]),
        ),
    ]);
    let model = decode_model(&Resource { data: Ok(root), blocks: vec![] }).unwrap();
    assert_eq!(model.ref_meshes.len(), 2);
    assert_eq!(model.ref_meshes[1].mesh_index, 2);
    assert_eq!(model.ref_meshes[1].lod_mask, 2);
    assert_eq!(model.material_groups[0].name, "default");
    assert_eq!(model.material_groups[0].materials, vec!["materials/a.vmat"]);
    assert!(model.embedded_meshes.is_empty());
}

fn block(kind: &[u8; 4], bytes: Vec<u8>, tree: Result<Value, String>) -> Block {
    Block { kind: *kind, bytes, tree }
}

#[test]
fn embedded_meshes_are_found_among_the_blocks_that_hold_something() {
    let entry = obj(vec![
        ("m_Name", text("body")),
        ("m_nMeshIndex", whole(0)),
        ("m_nDataBlock", whole(0)),
    ]);
    let control = obj(vec![("embedded_meshes", Value::Array(vec![entry]))]);
    let resource = Resource {
        data: Ok(obj(vec![])),
        blocks: vec![
            block(b"NONE", vec![], Err("empty".to_string())),
            block(b"MDAT", vec![1], Ok(scene_tree())),
            block(b"CTRL", vec![1], Ok(control)),
        ],
    };
    let model = decode_model(&resource).unwrap();
    assert_eq!(model.embedded_meshes.len(), 1);
    let embedded = &model.embedded_meshes[0];
    assert_eq!(embedded.name, "body");
    let dc = &embedded.mesh.scene_objects[0].draw_calls[0];
    assert_eq!(dc.material_path.as_deref(), Some("materials/a.vmat"));
    assert!(dc.is_triangle_list);
    assert_eq!(dc.index_count, 3);
}

#[test]
fn a_model_that_cannot_be_read_says_why() {
    let unread = Resource { data: Err("damaged".to_string()), blocks: vec![] };
    assert!(matches!(
        decode_model(&unread).unwrap_err(),
        MeshError::Resource { path, message } if path == "DATA" && message == "damaged"
    ));
    let entry = |more: Vec<(&str, Value)>| {
        let control = obj(vec![("embedded_meshes", Value::Array(vec![obj(more)]))]);
        Resource {
            data: Ok(obj(vec![])),
            blocks: vec![block(b"CTRL", vec![1], Ok(control))],
        }
    };
    let lacking = decode_model(&entry(vec![])).unwrap_err();
    assert!(matches!(
        lacking,
        MeshError::Missing { path } if path == "CTRL.embedded_meshes[0].m_nMeshIndex"
    ));
    let elsewhere =
        decode_model(&entry(vec![("m_nMeshIndex", whole(0)), ("m_nDataBlock", whole(5))]));
    assert!(matches!(elsewhere.unwrap_err(), MeshError::BlockNotFound { index: 5, .. }));
    let wrong = decode_model(&entry(vec![
        ("vbib_block", text("x")),
        ("mesh_index", whole(0)),
        ("data_block", whole(0)),
    ]));
    assert!(matches!(
        wrong.unwrap_err(),
        MeshError::WrongType { expected: "integer", .. }
    ));
}

#[test]
fn a_mesh_resource_holds_its_scene_and_its_buffers() {
    let resource = Resource { data: Ok(scene_tree()), blocks: vec![] };
    let mesh = decode_mesh_resource(&resource, "models/a.vmesh_c").unwrap();
    assert_eq!(mesh.scene_objects.len(), 1);
    assert!(mesh.vertex_buffers.is_empty());
    let unread = Resource { data: Err("damaged".to_string()), blocks: vec![] };
    assert!(matches!(
        decode_mesh_resource(&unread, "models/a.vmesh_c").unwrap_err(),
        MeshError::Resource { .. }
    ));
}

#[test]
fn a_draw_call_names_what_it_lacks() {
    let scene = |dc: Value| {
        obj(vec![(
            "m_sceneObjects",
            Value::Array(vec![obj(vec![("m_drawCalls", Value::Array(vec![dc]))])]),
        )])
    };
    let error = decode_scene_objects(&scene(obj(vec![])), "DATA").unwrap_err();
    match error {
        MeshError::Missing { path } => {
            assert_eq!(path, "DATA.m_sceneObjects[0].m_drawCalls[0].m_indexBuffer");
        }
        other => panic!("{other:?}"),
    }
    let objects = decode_scene_objects(&scene_tree(), "DATA").unwrap();
    assert_eq!(objects[0].draw_calls.len(), 1);
}

#[test]
fn flags_are_named_counted_or_missing() {
    assert!(matches!(draw_call_flags(&obj(vec![]), "m_nFlags"), DrawCallFlags::Unset));
    let named = obj(vec![("m_nFlags", text("A | B"))]);
    assert!(matches!(draw_call_flags(&named, "m_nFlags"), DrawCallFlags::Named(s) if s == "A | B"));
    let counted = obj(vec![("m_nFlags", whole(6))]);
    assert!(matches!(draw_call_flags(&counted, "m_nFlags"), DrawCallFlags::Int(6)));
    assert_eq!(parse_object_type_flags(Some(&whole(6))), 6);
}

#[test]
fn formats_go_there_and_back() {
    for raw in [2u32, 6, 16, 28, 34, 35, 37, 41, 42, 10, 9999] {
        assert_eq!(DxgiFormat::from_raw(raw).raw(), raw);
    }
    assert_eq!(DxgiFormat::from_raw(6), DxgiFormat::R32G32B32Float);
    assert_eq!(DxgiFormat::R32G32B32Float.element_size_and_components(), Some((4, 3)));
    assert_eq!(DxgiFormat::Other(9999).element_size_and_components(), None);
}

#[test]
fn a_reader_stays_inside_its_bytes() {
    let bytes = [1u8, 0, 0, 0, 0xFF, 0xFF, 0xFF, 0xFF, b'h', b'i', 0, b'x'];
    let mut r = Reader::new(&bytes);
    assert_eq!(r.u32().unwrap(), 1);
    assert_eq!(r.i32().unwrap(), -1);
    assert_eq!(r.fixed_cstr(4).unwrap(), "hi");
    let e = r.u32().unwrap_err();
    assert_eq!((e.offset, e.len, e.size), (12, 4, 12));
    assert!(!e.message().is_empty());
    // Bytes that are no text are replaced.
    assert_eq!(cstr_text(&[b'a', 0xFF, b'b']), "a\u{FFFD}b");
}

#[test]
fn words() {
    assert_eq!(base_name("a/b/c.txt"), "c.txt");
    assert_eq!(forward_slashes("a\\b"), "a/b");
    assert_eq!(split("a|b||c", '|'), vec!["a", "b", "", "c"]);
    assert_eq!(trim("  a b\t"), "a b");
    assert_eq!(decimal_i64(i64::MIN), "-9223372036854775808");
    assert_eq!(hex(&[0, 255, 16]), "00ff10");
    assert!(eq_ignore_ascii_case("AbC", "aBc"));
    assert!(!eq_ignore_ascii_case("É", "é"));
}

#[test]
fn floating_point_numbers_by_their_bits() {
    for (a, b) in [(1.0f32, 2.0f32), (-1.0, 1.0), (0.0, -0.0), (f32::NAN, 1.0), (-3.0, -2.0)] {
        assert_eq!(f32_le(a.to_bits(), b.to_bits()), a <= b, "{a} {b}");
        assert_eq!(f32_above(a.to_bits(), b.to_bits()), a > b, "{a} {b}");
    }
    assert!(f32_is_zero((-0.0f32).to_bits()));
    for v in [-2.0f32, 0.25, 1.5, -0.0] {
        assert_eq!(f32::from_bits(clamp_unit(v.to_bits())), v.clamp(0.0, 1.0), "{v}");
    }
    for v in [0.0f64, 2.9, -2.9, 1e30, -1e30, f64::NAN] {
        assert_eq!(f64_to_i64(v.to_bits()), v as i64, "{v}");
    }
    assert_eq!(round_to_small(2.5f64.to_bits()), Some(3));
}
