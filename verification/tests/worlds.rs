//! Worlds, world nodes and the fragments of their aggregates.

use s2render::kv::{Number, Object, Value};
use s2render::mesh::{DrawCall, DrawCallFlags};
use s2render::place::{
    fragment_draw, is_placed_by_fragment, placed_by, plan_aggregate, plan_fragments,
    AggregatePlan, FragmentDraw, MeshAt, Placed,
};
use s2render::world::{
    build_fragment_placements, decode_world, decode_world_node, is_overlay_flags,
    parse_flat_transform, parse_object_type_flags, world_node_path, AggregateRaw,
    FragmentPlacement, FragmentTransformShortage, Transform, IDENTITY_TRANSFORM,
};
use s2render::{LodInfo, Model, RefMesh};

fn whole(i: i64) -> Value {
    Value::Number(Number {
        signed: Some(i),
        unsigned: u64::try_from(i).ok(),
        single: (i as f32).to_bits(),
    })
}

fn double(f: f64) -> Value {
    Value::Number(Number {
        signed: Some(f as i64),
        unsigned: Some(f as u64),
        single: (f as f32).to_bits(),
    })
}

fn obj(entries: Vec<(&str, Value)>) -> Value {
    let mut o = Object::new();
    for (k, v) in entries {
        o.push(k, v);
    }
    Value::Object(o)
}

fn flat12(vals: [f32; 12]) -> Value {
    Value::Array(vals.iter().map(|&v| double(v as f64)).collect())
}

/// The rows of a transform.
fn rows(t: &Transform) -> [[f32; 4]; 3] {
    let f = t.map(f32::from_bits);
    [
        [f[0], f[1], f[2], f[3]],
        [f[4], f[5], f[6], f[7]],
        [f[8], f[9], f[10], f[11]],
    ]
}

fn det3(t: &Transform) -> f32 {
    let m = rows(t);
    m[0][0] * (m[1][1] * m[2][2] - m[1][2] * m[2][1])
        - m[0][1] * (m[1][0] * m[2][2] - m[1][2] * m[2][0])
        + m[0][2] * (m[1][0] * m[2][1] - m[1][1] * m[2][0])
}

fn placements_of(
    agg: &AggregateRaw,
) -> Result<Vec<FragmentPlacement>, FragmentTransformShortage> {
    let collapsed = agg.fragment_transforms.iter().map(|t| det3(t) == 0.0).collect();
    build_fragment_placements(agg, &collapsed)
}

fn aggregate(agg_val: Value) -> AggregateRaw {
    let root = obj(vec![("m_aggregateSceneObjects", Value::Array(vec![agg_val]))]);
    decode_world_node(&root).unwrap().aggregates.remove(0)
}

#[test]
fn flat_transform_reads_rows_and_translation_at_3_7_11() {
    let v = flat12([
        1.0, 0.0, 0.0, 10.0, //
        0.0, 1.0, 0.0, 20.0, //
        0.0, 0.0, 1.0, 30.0,
    ]);
    let t = rows(&parse_flat_transform(&v).unwrap());
    assert_eq!(t[0], [1.0, 0.0, 0.0, 10.0]);
    assert_eq!(t[1], [0.0, 1.0, 0.0, 20.0]);
    assert_eq!(t[2], [0.0, 0.0, 1.0, 30.0]);
}

#[test]
fn a_flat_transform_of_another_length_is_none() {
    assert!(parse_flat_transform(&Value::Array(vec![double(1.0), double(2.0)])).is_none());
    assert!(parse_flat_transform(&double(1.0)).is_none());
}

#[test]
fn det3_of_identity_is_one_and_zero_scale_is_zero() {
    assert_eq!(det3(&IDENTITY_TRANSFORM), 1.0);
    let mut zero_scale = IDENTITY_TRANSFORM;
    zero_scale[0] = 0.0f32.to_bits();
    assert_eq!(det3(&zero_scale), 0.0);
}

#[test]
fn object_type_flags_parse_string_combo_and_numeric() {
    assert!(is_overlay_flags(parse_object_type_flags(Some(&Value::String(
        "OBJECT_TYPE_OVERLAY".to_string()
    )))));
    assert!(is_overlay_flags(parse_object_type_flags(Some(&Value::String(
        "OBJECT_TYPE_NO_SHADOWS | OBJECT_TYPE_OVERLAY".to_string()
    )))));
    assert!(!is_overlay_flags(parse_object_type_flags(Some(&Value::String(
        "OBJECT_TYPE_NO_SHADOWS".to_string()
    )))));
    assert!(is_overlay_flags(parse_object_type_flags(Some(&whole(0x2000)))));
    assert!(!is_overlay_flags(parse_object_type_flags(None)));
}

fn fragment(draw_call: i64, has_transform: bool, lod_mask: i64, lod_setup: i64) -> Value {
    obj(vec![
        ("m_nDrawCallIndex", whole(draw_call)),
        ("m_bHasTransform", Value::Bool(has_transform)),
        ("m_nLODGroupMask", whole(lod_mask)),
        ("m_nLODSetupIndex", whole(lod_setup)),
    ])
}

#[test]
fn fragment_transform_counter_advances_even_for_dropped_fragments() {
    let zero_det = flat12([0.0, 0.0, 0.0, 0.0, 0.0, 1.0, 0.0, 0.0, 0.0, 0.0, 1.0, 0.0]);
    let translate = flat12([1.0, 0.0, 0.0, 5.0, 0.0, 1.0, 0.0, 0.0, 0.0, 0.0, 1.0, 0.0]);

    let agg = aggregate(obj(vec![
        ("m_renderableModel", Value::String("models/agg.vmdl".into())),
        (
            "m_aggregateMeshes",
            Value::Array(vec![fragment(0, true, 0, -1), fragment(1, true, 0, -1)]),
        ),
        ("m_fragmentTransforms", Value::Array(vec![zero_det, translate])),
    ]));
    let placements = placements_of(&agg).unwrap();

    assert_eq!(placements.len(), 1);
    assert_eq!(placements[0].draw_call_index, 1);
    assert_eq!(rows(&placements[0].transform)[0][3], 5.0);
    assert!(is_placed_by_fragment(&agg));
}

#[test]
fn lod_lowest_level_per_setup_index_kept_others_dropped() {
    let agg = aggregate(obj(vec![
        ("m_renderableModel", Value::String("models/agg.vmdl".into())),
        (
            "m_aggregateMeshes",
            Value::Array(vec![fragment(0, false, 0b01, 0), fragment(1, false, 0b10, 0)]),
        ),
    ]));
    let placements = placements_of(&agg).unwrap();
    assert_eq!(placements.len(), 1);
    assert_eq!(placements[0].draw_call_index, 0);
}

#[test]
fn zero_mask_fragment_is_always_kept_unmanaged_by_lod() {
    let agg = aggregate(obj(vec![
        ("m_renderableModel", Value::String("models/agg.vmdl".into())),
        ("m_aggregateMeshes", Value::Array(vec![fragment(0, false, 0, -1)])),
    ]));
    let placements = placements_of(&agg).unwrap();
    assert_eq!(placements.len(), 1);
}

#[test]
fn missing_transform_slot_errors_rather_than_panicking() {
    let agg = aggregate(obj(vec![
        ("m_renderableModel", Value::String("models/agg.vmdl".into())),
        ("m_aggregateMeshes", Value::Array(vec![fragment(0, true, 0, -1)])),
        ("m_fragmentTransforms", Value::Array(vec![])),
    ]));
    let err = placements_of(&agg).unwrap_err();
    assert_eq!(err.fragment, 0);
    assert_eq!(err.available, 0);
    assert!(!err.message().is_empty());
}

#[test]
fn scene_object_reads_tint_flags_and_transform() {
    let row = |v: [f64; 4]| Value::Array(v.iter().map(|&f| double(f)).collect());
    let transform = Value::Array(vec![
        row([1.0, 0.0, 0.0, 10.0]),
        row([0.0, 1.0, 0.0, 20.0]),
        row([0.0, 0.0, 1.0, 30.0]),
    ]);
    let root = obj(vec![(
        "m_sceneObjects",
        Value::Array(vec![obj(vec![
            ("m_renderableModel", Value::String("models/foo.vmdl".into())),
            ("m_vTransform", transform),
            (
                "m_nObjectTypeFlags",
                Value::String("OBJECT_TYPE_OVERLAY".into()),
            ),
        ])]),
    )]);
    let node = decode_world_node(&root).unwrap();
    let so = &node.scene_objects[0];
    assert_eq!(so.renderable_model.as_deref(), Some("models/foo.vmdl"));
    assert_eq!(rows(&so.transform)[0][3], 10.0);
    assert!(so.is_overlay);
    assert_eq!(so.tint.map(f32::from_bits), [1.0, 1.0, 1.0, 1.0]);
    assert_eq!(so.overlay_render_order, 0);
    assert!(matches!(placed_by(so), Placed::Model(p) if p == "models/foo.vmdl_c"));
}

#[test]
fn scene_object_reads_overlay_render_order_and_renderable() {
    let root = obj(vec![(
        "m_sceneObjects",
        Value::Array(vec![obj(vec![
            ("m_renderable", Value::String("models/foo.vmesh".into())),
            ("m_nOverlayRenderOrder", whole(2)),
        ])]),
    )]);
    let node = decode_world_node(&root).unwrap();
    let so = &node.scene_objects[0];
    assert_eq!(so.renderable_model, None);
    assert_eq!(so.renderable.as_deref(), Some("models/foo.vmesh"));
    assert_eq!(so.overlay_render_order, 2);
    assert!(matches!(placed_by(so), Placed::Mesh(p) if p == "models/foo.vmesh_c"));
}

#[test]
fn a_world_lists_its_lumps_nodes_and_lightmaps() {
    let root = obj(vec![
        (
            "m_entityLumps",
            Value::Array(vec![Value::String("maps/a/default_ents.vents".to_string())]),
        ),
        (
            "m_worldNodes",
            Value::Array(vec![obj(vec![(
                "m_worldNodePrefix",
                Value::String("maps/a/worldnodes/node000".to_string()),
            )])]),
        ),
    ]);
    let world = decode_world(&root);
    assert_eq!(world.entity_lumps, vec!["maps/a/default_ents.vents"]);
    assert_eq!(world.world_node_prefixes, vec!["maps/a/worldnodes/node000"]);
    assert_eq!(world.lightmap_uv_scale.map(f32::from_bits), [1.0, 1.0]);
    assert_eq!(
        world_node_path("maps/a/worldnodes/node000"),
        "maps/a/worldnodes/node000.vwnod_c"
    );
}

#[test]
fn a_fragment_without_a_draw_call_is_missing() {
    assert!(matches!(
        fragment_draw(&vec![], 3, "models/agg.vmdl_c"),
        FragmentDraw::Missing(m) if m.contains("models/agg.vmdl_c") && m.contains('3')
    ));
}

fn draw_call(material: Option<&str>, is_triangle_list: bool) -> DrawCall {
    DrawCall {
        material_path: material.map(str::to_string),
        is_triangle_list,
        base_vertex: 0,
        start_index: 0,
        index_count: 3,
        vertex_count: 3,
        index_buffer: 0,
        vertex_buffers: vec![],
        tint_color: None,
        alpha: None,
        flags: DrawCallFlags::Unset,
        has_baked_lighting_from_lightmap: false,
    }
}

#[test]
fn fragments_are_planned_one_after_the_other() {
    let agg = aggregate(obj(vec![(
        "m_aggregateMeshes",
        Value::Array(vec![
            fragment(1, false, 0, -1),
            fragment(5, false, 0, -1),
            fragment(0, false, 0, -1),
            fragment(-1, false, 0, -1),
            fragment(2, false, 0, -1),
        ]),
    )]));
    let calls =
        [draw_call(Some("a.vmat"), false), draw_call(Some("b.vmat"), true), draw_call(None, true)];
    let lent: Vec<&DrawCall> = calls.iter().collect();
    let plans = plan_fragments(&agg, &vec![], &lent, "models/agg.vmdl_c").unwrap();
    let indices: Vec<usize> = plans.iter().map(|p| p.at.draw_call_index).collect();
    assert_eq!(indices, vec![1, 5, 0, 2]);
    assert!(matches!(&plans[0].draw, FragmentDraw::Drawn(m) if m == "b.vmat"));
    assert!(matches!(
        &plans[1].draw,
        FragmentDraw::Missing(m)
            if m == "models/agg.vmdl_c: fragment references draw call 5 out of 3"
    ));
    assert!(matches!(&plans[2].draw, FragmentDraw::Skipped));
    assert!(matches!(&plans[3].draw, FragmentDraw::Skipped));

    let short = aggregate(obj(vec![(
        "m_aggregateMeshes",
        Value::Array(vec![fragment(1, true, 0, -1)]),
    )]));
    let why = plan_fragments(&short, &vec![], &lent, "models/agg.vmdl_c").unwrap_err();
    assert!(why.starts_with("models/agg.vmdl_c: fragment 0"), "{why}");
}

#[test]
fn an_aggregate_is_placed_whole_where_its_fragments_name_no_draw_call() {
    let of = |draw_call: i64| {
        aggregate(obj(vec![(
            "m_aggregateMeshes",
            Value::Array(vec![fragment(draw_call, false, 0, -1)]),
        )]))
    };
    let model = |refs: Vec<RefMesh>| Model {
        embedded_meshes: vec![],
        ref_meshes: refs,
        lod: LodInfo::default(),
        material_groups: vec![],
    };
    let mesh = RefMesh { mesh_index: 0, mesh_path: "a.vmesh".to_string(), lod_mask: 0 };
    let path = "agg.vmdl_c";
    assert!(matches!(plan_aggregate(&of(-1), &model(vec![]), path), AggregatePlan::Whole));
    assert!(matches!(
        plan_aggregate(&of(0), &model(vec![]), path),
        AggregatePlan::Missing(m) if m == "agg.vmdl_c: aggregate model has no mesh"
    ));
    assert!(matches!(
        plan_aggregate(&of(0), &model(vec![mesh]), path),
        AggregatePlan::Fragments(MeshAt::Resource(p)) if p == "a.vmesh_c"
    ));
}
