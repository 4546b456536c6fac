//! An export: its draw calls, their meshes and instances, and what is written of it.

use s2render::attributes::{Normal, Scalar};
use s2render::bits::half_to_f32;
use s2render::buffer::{Buffer, Compression, InputLayoutField};
use s2render::entity::{Entity, EntityLump, Property, ValueKind};
use s2render::export::{
    needs_blend, sum_triangles, triangle_count, write_steps, Ctx, DrawStep, ExportError, ExportOptions,
    ExportResult, ExportStage, ExportWriteError, MeshStep, Seen, WriteStep,
};
use s2render::geometry::{
    classify_lighting, coordinates_are_pairs, decode_geometry, fits, remap_indices, DrawGeometry,
    Streams,
};
use s2render::gltf::{frame, GlbTooLarge};
use s2render::gltf_material::{is_suited, ColorMatrices, MaterialInputs, SLOT_COUNT};
use s2render::json::{Json, Members};
use s2render::kv::Resource;
use s2render::material::{resolve, RawMaterial, Red2Info};
use s2render::mesh::{DrawCall, DrawCallFlags, Mesh, SceneObject};
use s2render::native_texture::Loaded;
use s2render::place::{
    flatten_draw_calls, is_overlay, load_mesh, load_model, model_meshes_at_lowest_lod,
    overlay_order, placed_by, plan_draws, MeshAt, Placed,
};
use s2render::report::{LightingClass, Outcome};
use s2render::skybox::{
    can_merge, find_sky_camera, find_skybox_reference, merge_skybox_export,
};
use s2render::source::SourceError;
use s2render::summary::{
    atlas_gap, collect_files, finish_document, write_report, write_sun, Lighting, Sun,
    Surroundings,
};
use s2render::table::Table;
use s2render::world::{SceneObjectRaw, Transform, IDENTITY_TRANSFORM};
use s2render::{DxgiFormat, LodInfo, Model, RefMesh};
use serde_json::Value;

fn serde(j: &Json) -> Value {
    match j {
        Json::Null => Value::Null,
        Json::Bool(b) => Value::from(*b),
        Json::Int(i) => Value::from(*i),
        Json::UInt(u) => Value::from(*u),
        Json::Single(bits) => Value::from(f32::from_bits(*bits)),
        Json::Double(bits) => Value::from(f64::from_bits(*bits)),
        Json::Str(s) => Value::from(s.clone()),
        Json::Array(items) => Value::Array(items.iter().map(serde).collect()),
        Json::Object(list) => {
            Value::Object(list.iter().map(|(k, v)| (k.clone(), serde(v))).collect())
        }
    }
}

fn glb_json(bytes: &[u8]) -> Value {
    let json_len = u32::from_le_bytes(bytes[12..16].try_into().unwrap()) as usize;
    serde_json::from_slice(&bytes[20..20 + json_len]).unwrap()
}

fn bin_chunk(bytes: &[u8]) -> &[u8] {
    let json_len = u32::from_le_bytes(bytes[12..16].try_into().unwrap()) as usize;
    let bin_start = 20 + json_len;
    let bin_len = u32::from_le_bytes(bytes[bin_start..bin_start + 4].try_into().unwrap()) as usize;
    &bytes[bin_start + 8..bin_start + 8 + bin_len]
}

fn base_material(shader: &str) -> RawMaterial {
    RawMaterial {
        shader: shader.to_string(),
        ..Default::default()
    }
}

fn layout_field(name: &str, index: i32, format: DxgiFormat, offset: u32) -> InputLayoutField {
    InputLayoutField {
        semantic_name: name.to_string(),
        semantic_index: index,
        format,
        offset,
    }
}

fn index_buffer() -> Buffer {
    Buffer {
        element_count: 3,
        element_size: 2,
        fields: vec![],
        data: [0u16, 1, 2].iter().flat_map(|i| i.to_le_bytes()).collect(),
        compression: Compression::default(),
    }
}

fn one_draw_call(material_path: &str, baked: bool) -> DrawCall {
    DrawCall {
        material_path: Some(material_path.to_string()),
        is_triangle_list: true,
        base_vertex: 0,
        start_index: 0,
        index_count: 3,
        vertex_count: 3,
        index_buffer: 0,
        vertex_buffers: vec![0],
        tint_color: None,
        alpha: None,
        flags: DrawCallFlags::Unset,
        has_baked_lighting_from_lightmap: baked,
    }
}

fn triangle_mesh(material_path: &str) -> Mesh {
    let positions: Vec<u8> = [[0.0f32, 0.0, 0.0], [1.0, 0.0, 0.0], [0.0, 1.0, 0.0]]
        .iter()
        .flat_map(|p| p.iter().flat_map(|f| f.to_le_bytes()))
        .collect();
    let vertex_buffer = Buffer {
        element_count: 3,
        element_size: 12,
        fields: vec![layout_field("POSITION", 0, DxgiFormat::R32G32B32Float, 0)],
        data: positions,
        compression: Compression::default(),
    };
    Mesh {
        vertex_buffers: vec![vertex_buffer],
        index_buffers: vec![index_buffer()],
        scene_objects: vec![SceneObject {
            draw_calls: vec![one_draw_call(material_path, false)],
        }],
    }
}

fn triangle_mesh_dc(mesh: &Mesh) -> &DrawCall {
    &mesh.scene_objects[0].draw_calls[0]
}

fn float(s: &Scalar) -> f32 {
    match s {
        Scalar::Single(bits) => f32::from_bits(*bits),
        Scalar::Half(bits) => f32::from_bits(half_to_f32(*bits)),
        Scalar::Ratio(n, d) => *n as f32 / *d as f32,
    }
}

/// The streams of a geometry whose normals all point up.
fn streams_of(g: &DrawGeometry, scale: [f32; 2]) -> Streams {
    let n = g.positions.len();
    let points: Vec<[f32; 3]> = g.positions.iter().map(|p| p.map(f32::from_bits)).collect();
    let mut min = [f32::INFINITY; 3];
    let mut max = [f32::NEG_INFINITY; 3];
    for p in &points {
        for c in 0..3 {
            min[c] = min[c].min(p[c]);
            max[c] = max[c].max(p[c]);
        }
    }
    let middle = |c: usize| ((min[c] + max[c]) * 0.5 * 16.0).round() as i64;
    let word = |v: f32| (v.clamp(0.0, 1.0) * 65535.0).round() as u16;
    Streams {
        positions: g.positions.clone(),
        grid: points.iter().map(|p| p.map(|v| (v * 16.0).round() as i64)).collect(),
        center: (middle(0), middle(1), middle(2)),
        min: (min[0].to_bits(), min[1].to_bits(), min[2].to_bits()),
        max: (max[0].to_bits(), max[1].to_bits(), max[2].to_bits()),
        normals: vec![[0, 0, 127]; n],
        uv0: vec![[0, 0]; n],
        uv0_quantized: vec![[0, 0]; n],
        uv1: g.uv1.as_ref().map(|v| {
            v.iter()
                .map(|(a, b)| [word(float(a) * scale[0]), word(float(b) * scale[1])])
                .collect()
        }),
        blend: g.blend.as_ref().map(|v| v.iter().map(|w| float(w).to_bits()).collect()),
    }
}

fn inputs() -> MaterialInputs {
    let m = ColorMatrices { color_adjust: [0; 16], adjust: [0; 16] };
    MaterialInputs {
        base_color: [0x3F80_0000; 4],
        tint: None,
        facing_direction: [0; 3],
        facing_min_max: [0; 2],
        self_illum_tint: [0; 3],
        matrices1: m,
        matrices2: m,
    }
}

fn scene_object(is_overlay: bool, order: i64) -> SceneObjectRaw {
    SceneObjectRaw {
        renderable_model: None,
        renderable: Some("models/broken.vmesh".to_string()),
        transform: IDENTITY_TRANSFORM,
        tint: [0x3F80_0000; 4],
        is_overlay,
        overlay_render_order: order,
        layer_index: None,
        light_probe_volume_handshake: 0,
    }
}

#[test]
fn renderable_scene_object_reports_mesh_decode_failures() {
    let mut ctx = Ctx::new();
    let so = scene_object(false, 0);
    let Placed::Mesh(path) = placed_by(&so) else {
        panic!("expected a mesh");
    };
    assert_eq!(path, "models/broken.vmesh_c");
    let broken = Resource { data: Err("no DATA block".to_string()), blocks: vec![] };
    assert!(load_mesh(&mut ctx.report, &path, Some(&broken)).is_none());
    assert!(
        ctx.report
            .missing_resources
            .iter()
            .any(|m| m.contains("failed to decode mesh")),
        "{:?}",
        ctx.report.missing_resources
    );
    assert!(load_model(&mut ctx.report, "models/gone.vmdl_c", None).is_none());
    assert_eq!(
        ctx.report.missing_resources.last().map(String::as_str),
        Some("models/gone.vmdl_c: not found")
    );
}

/// Places the one draw call of a mesh, and says whether it was drawn as an overlay.
fn place_one(
    ctx: &mut Ctx,
    children: &mut Vec<u32>,
    key: &str,
    mesh: &Mesh,
    shader: &str,
    so: &SceneObjectRaw,
) -> bool {
    let raw = RawMaterial {
        red2: Red2Info { unlit: Some(true), ..Default::default() },
        ..base_material(shader)
    };
    let resolved = resolve(&raw);
    let calls = flatten_draw_calls(mesh);
    let plans = plan_draws(&calls, None);
    assert_eq!(plans.len(), 1);
    let plan = &plans[0];
    let dc = calls[plan.index];
    let overlay = is_overlay(so.is_overlay, resolved.material_says_overlay);
    let tint = [255u8; 4];
    let path = plan.material.as_str();
    ctx.know_material(path, Some(raw));
    if ctx.find_gltf_material(path, &tint).is_none() {
        let loads = vec![None; SLOT_COUNT];
        assert!(is_suited(&resolved, &inputs(), &loads));
        ctx.add_gltf_material(path, tint, &inputs(), &loads);
    }
    let step = ctx.begin_draw(key, plan.index, overlay, mesh, dc, path, &tint);
    let DrawStep::Drawn { material, lighting, needs_uv1, needs_blend: weights, step, .. } = step
    else {
        panic!("{step:?}");
    };
    assert!(matches!(step, MeshStep::Build));
    assert_eq!((lighting, needs_uv1), (LightingClass::Unlit, false));
    assert_eq!(weights, needs_blend(&resolved));
    assert!(coordinates_are_pairs(mesh, dc, needs_uv1, weights));
    let geometry = decode_geometry(mesh, dc, needs_uv1, weights).unwrap();
    let streams = streams_of(&geometry, [1.0, 1.0]);
    assert!(fits(&ctx.builder, &geometry, &streams, overlay));
    let step = ctx.add_mesh_geometry(
        key, plan.index, overlay, path, material, lighting, &geometry, &streams,
    );
    let MeshStep::Shared(shared) = step else {
        panic!("{step:?}");
    };
    let transform: Transform = so.transform;
    ctx.add_instance(children, None, shared.mesh, &transform, overlay_order(so), 0);
    overlay
}

#[test]
fn place_mesh_draw_calls_overlay_order_requires_the_object_flag_not_just_the_material() {
    let mut ctx = Ctx::new();
    let mut children = Vec::new();
    let plain = triangle_mesh("materials/plain.vmat");
    let overlay = triangle_mesh("materials/overlay.vmat");
    let a = place_one(
        &mut ctx,
        &mut children,
        "a",
        &plain,
        "csgo_vertexlitgeneric",
        &scene_object(false, 7),
    );
    let b = place_one(
        &mut ctx,
        &mut children,
        "b",
        &overlay,
        "csgo_static_overlay",
        &scene_object(false, 7),
    );
    let c = place_one(
        &mut ctx,
        &mut children,
        "c",
        &plain,
        "csgo_vertexlitgeneric",
        &scene_object(true, 9),
    );
    assert_eq!((a, b, c), (false, true, true));
    assert_eq!(children.len(), 3);

    let (json, bin) = ctx.builder.finish(&children, &vec![], Members::new().object());
    let glb = frame(serde_json::to_vec(&serde(&json)).unwrap(), bin).unwrap();
    let doc = glb_json(&glb);
    let nodes = doc["nodes"].as_array().unwrap();
    assert!(nodes[0].get("extras").is_none(), "{:?}", nodes[0]);
    assert!(nodes[1].get("extras").is_none(), "{:?}", nodes[1]);
    assert_eq!(nodes[2]["extras"]["overlayOrder"], 9);
}

#[test]
fn classify_lighting_covers_all_three_cases() {
    let lightmap_field = || layout_field("TEXCOORD", 3, DxgiFormat::R16G16Unorm, 0);
    let mut mesh = triangle_mesh("materials/plain.vmat");
    mesh.vertex_buffers[0].fields.push(lightmap_field());
    mesh.scene_objects[0].draw_calls[0].has_baked_lighting_from_lightmap = true;
    assert_eq!(
        classify_lighting(&mesh, triangle_mesh_dc(&mesh), false),
        LightingClass::Lightmap
    );

    let unlit_mesh = triangle_mesh("materials/plain.vmat");
    assert_eq!(
        classify_lighting(&unlit_mesh, triangle_mesh_dc(&unlit_mesh), true),
        LightingClass::Unlit
    );

    let probe_mesh = triangle_mesh("materials/plain.vmat");
    assert_eq!(
        classify_lighting(&probe_mesh, triangle_mesh_dc(&probe_mesh), false),
        LightingClass::Probe
    );

    // The flag alone is not enough.
    let mut flag_only_mesh = triangle_mesh("materials/plain.vmat");
    flag_only_mesh.scene_objects[0].draw_calls[0].has_baked_lighting_from_lightmap = true;
    assert_eq!(
        classify_lighting(&flag_only_mesh, triangle_mesh_dc(&flag_only_mesh), false),
        LightingClass::Probe
    );

    // Nor are the coordinates.
    let mut uv_only_mesh = triangle_mesh("materials/plain.vmat");
    uv_only_mesh.vertex_buffers[0].fields.push(lightmap_field());
    assert_eq!(
        classify_lighting(&uv_only_mesh, triangle_mesh_dc(&uv_only_mesh), false),
        LightingClass::Probe
    );
}

#[test]
fn uv1_reads_texcoord_index_3_and_applies_the_lightmap_scale() {
    let raw_u16: [u16; 2] = [32768, 16384];
    let scale = [1.2f32, 0.8f32];

    let mut data = Vec::new();
    for _ in 0..3 {
        data.extend_from_slice(&0.0f32.to_le_bytes());
        data.extend_from_slice(&0.0f32.to_le_bytes());
        data.extend_from_slice(&0.0f32.to_le_bytes());
        data.extend_from_slice(&0u16.to_le_bytes());
        data.extend_from_slice(&0u16.to_le_bytes());
        data.extend_from_slice(&raw_u16[0].to_le_bytes());
        data.extend_from_slice(&raw_u16[1].to_le_bytes());
    }
    let vertex_buffer = Buffer {
        element_count: 3,
        element_size: 20,
        fields: vec![
            layout_field("POSITION", 0, DxgiFormat::R32G32B32Float, 0),
            layout_field("TEXCOORD", 0, DxgiFormat::R16G16Unorm, 12),
            layout_field("TEXCOORD", 3, DxgiFormat::R16G16Unorm, 16),
        ],
        data,
        compression: Compression::default(),
    };
    let mesh = Mesh {
        vertex_buffers: vec![vertex_buffer],
        index_buffers: vec![index_buffer()],
        scene_objects: vec![SceneObject {
            draw_calls: vec![one_draw_call("materials/plain.vmat", true)],
        }],
    };
    let dc = &mesh.scene_objects[0].draw_calls[0];
    assert!(coordinates_are_pairs(&mesh, dc, true, false));

    let mut ctx = Ctx::new();
    let geometry = decode_geometry(&mesh, dc, true, false).expect("decode_geometry");
    let streams = streams_of(&geometry, scale);
    let built = s2render::geometry::add_geometry(&mut ctx.builder, &geometry, &streams, false);
    let uv1_idx = built.uv1.expect("uv1 accessor");

    let (json, bin) = ctx.builder.finish(&vec![], &vec![], Members::new().object());
    let glb = frame(serde_json::to_vec(&serde(&json)).unwrap(), bin).expect("finish");
    let doc = glb_json(&glb);
    let accessor = &doc["accessors"][uv1_idx as usize];
    let view_idx = accessor["bufferView"].as_u64().unwrap() as usize;
    let view = &doc["bufferViews"][view_idx];
    let ext = &view["extensions"]["KHR_meshopt_compression"];
    let byte_offset = ext["byteOffset"].as_u64().unwrap() as usize;
    let byte_length = ext["byteLength"].as_u64().unwrap() as usize;
    let count = ext["count"].as_u64().unwrap() as usize;
    let bin = bin_chunk(&glb);
    let compressed = &bin[byte_offset..byte_offset + byte_length];
    let decoded: Vec<[u16; 2]> = meshopt::decode_vertex_buffer(compressed, count).unwrap();
    let (got0, got1) = (decoded[0][0], decoded[0][1]);

    let raw = [
        f32::from(raw_u16[0]) / 65535.0,
        f32::from(raw_u16[1]) / 65535.0,
    ];
    let want = [raw[0] * scale[0], raw[1] * scale[1]];
    let got = [f32::from(got0) / 65535.0, f32::from(got1) / 65535.0];
    assert!((got[0] - want[0]).abs() < 1e-3, "got {got:?} want {want:?}");
    assert!((got[1] - want[1]).abs() < 1e-3, "got {got:?} want {want:?}");
}

#[test]
fn drawn_vertices_are_kept_once_in_the_order_they_come() {
    let (order, local) = remap_indices(&vec![7, 3, 7, 9, 3]);
    assert_eq!(order, vec![7, 3, 9]);
    assert_eq!(local, vec![0, 1, 0, 2, 1]);
    for (i, &l) in local.iter().enumerate() {
        assert_eq!(order[l as usize], [7, 3, 7, 9, 3][i]);
    }
}

#[test]
fn a_second_instance_shares_the_mesh_of_the_first() {
    let mesh = triangle_mesh("materials/plain.vmat");
    let mut ctx = Ctx::new();
    let mut children = Vec::new();
    let so = scene_object(false, 0);
    place_one(&mut ctx, &mut children, "a", &mesh, "csgo_vertexlitgeneric", &so);
    let dc = triangle_mesh_dc(&mesh);
    let mut again = |overlay: bool| {
        match ctx.begin_draw("a", 0, overlay, &mesh, dc, "materials/plain.vmat", &[255u8; 4]) {
            DrawStep::Drawn { step, .. } => step,
            step => panic!("{step:?}"),
        }
    };
    let step = again(false);
    assert!(matches!(step, MeshStep::Shared(s) if s.mesh == 0), "{step:?}");
    let step = again(true);
    assert!(matches!(step, MeshStep::Build), "{step:?}");
    assert_eq!(ctx.report.counts.unlit_draw_calls, 3);
    assert_eq!(ctx.report.counts.triangles, 3);
}

#[test]
fn a_probe_instance_has_a_mesh_of_its_own() {
    let mesh = triangle_mesh("materials/plain.vmat");
    let geometry = decode_geometry(&mesh, triangle_mesh_dc(&mesh), false, false).unwrap();
    let streams = streams_of(&geometry, [1.0, 1.0]);
    let mut ctx = Ctx::new();
    let path = "materials/plain.vmat";
    ctx.know_material(path, Some(base_material("csgo_vertexlitgeneric")));
    assert!(fits(&ctx.builder, &geometry, &streams, false));
    let step = ctx.add_mesh_geometry(
        "p", 0, false, path, 0, LightingClass::Probe, &geometry, &streams,
    );
    let MeshStep::Probe(number) = step else {
        panic!("{step:?}");
    };
    let mut children = Vec::new();
    for _ in 0..2 {
        let light = vec![Some([1, 2, 3, 4]), None, Some([5, 6, 7, 8])];
        ctx.add_probe_instance(
            &mut children,
            Some("prop"),
            number,
            0,
            &light,
            &IDENTITY_TRANSFORM,
            None,
            42,
        );
    }
    assert_eq!(ctx.builder.mesh_count(), 2);
    assert_eq!(ctx.builder.node_count(), 2);
    assert_eq!(children, vec![0, 1]);
    assert_eq!(ctx.report.counts.probe_sample_failures, 2);
}

fn tools_material() -> RawMaterial {
    let mut raw = base_material("generic");
    raw.int_attributes.insert("tools.toolsmaterial".into(), 1);
    raw
}

#[test]
fn tools_materials_are_left_out_and_counted() {
    let mut ctx = Ctx::new();
    let clip = "materials/tools/clip.vmat";
    let wall = "materials/wall.vmat";
    ctx.know_material(clip, Some(tools_material()));
    ctx.know_material(wall, Some(base_material("generic")));
    let tint = [255u8; 4];
    for (path, dropped) in [(clip, true), (wall, false)] {
        let mesh = triangle_mesh(path);
        let dc = triangle_mesh_dc(&mesh);
        let step = ctx.begin_draw("a", 0, false, &mesh, dc, path, &tint);
        assert_eq!(matches!(step, DrawStep::Dropped), dropped, "{step:?}");
    }
    let dropped = ctx.report.tools_drop(clip);
    assert_eq!((dropped.draw_calls, dropped.triangles), (1, 1));
    assert_eq!(ctx.report.tools_drop(wall).draw_calls, 0);
}

#[test]
fn no_material_is_both_drawn_and_left_out() {
    let mut ctx = Ctx::new();
    let path = "materials/plain.vmat";
    let mesh = triangle_mesh(path);
    let dc = triangle_mesh_dc(&mesh);
    let tint = [255u8; 4];
    ctx.know_material(path, Some(base_material("generic")));
    ctx.add_gltf_material(path, tint, &inputs(), &vec![None; SLOT_COUNT]);
    let step = ctx.begin_draw("a", 0, false, &mesh, dc, path, &tint);
    assert!(matches!(step, DrawStep::Drawn { .. }), "{step:?}");
    // What is known stays.
    ctx.know_material(path, Some(tools_material()));
    let step = ctx.begin_draw("a", 0, false, &mesh, dc, path, &tint);
    assert!(matches!(step, DrawStep::Drawn { .. }), "{step:?}");
    assert_eq!(ctx.report.tools_drop(path).draw_calls, 0);
    assert_eq!(ctx.report.counts.triangles, 2);
}

#[test]
fn a_material_that_is_missing_is_asked_for_once() {
    let mut ctx = Ctx::new();
    let path = "materials/gone.vmat";
    let mesh = triangle_mesh(path);
    let dc = triangle_mesh_dc(&mesh);
    let tint = [255u8; 4];
    let step = ctx.begin_draw("a", 0, false, &mesh, dc, path, &tint);
    assert!(matches!(step, DrawStep::Fetch), "{step:?}");
    ctx.take_material(path, None);
    ctx.take_material(path, None);
    assert_eq!(ctx.report.missing_resources, vec!["materials/gone.vmat_c: not found"]);
    let step = ctx.begin_draw("a", 0, false, &mesh, dc, path, &tint);
    assert!(matches!(step, DrawStep::Missing), "{step:?}");
    assert!(matches!(ctx.material(path), Some(None)));
    let broken = Resource { data: Err("no DATA block".to_string()), blocks: vec![] };
    ctx.take_material("materials/broken.vmat", Some(&broken));
    let why = ctx.report.missing_resources.last().unwrap();
    assert!(why.contains("materials/broken.vmat_c: failed to decode material"), "{why}");
}

#[test]
fn a_slot_that_is_not_asked_for_stays_empty() {
    let resolved = resolve(&base_material("generic"));
    let mut loads = vec![None; SLOT_COUNT];
    assert!(is_suited(&resolved, &inputs(), &loads));
    loads[7] = Some(Loaded::Texture(0));
    assert!(!is_suited(&resolved, &inputs(), &loads));
    let tinted = MaterialInputs { tint: Some([0; 3]), ..inputs() };
    assert!(!is_suited(&resolved, &tinted, &vec![None; SLOT_COUNT]));
    assert!(!is_suited(&resolved, &inputs(), &vec![None; 2]));
}

#[test]
fn attributes_that_are_missing_have_their_defaults() {
    let mesh = triangle_mesh("materials/plain.vmat");
    let dc = triangle_mesh_dc(&mesh);
    assert!(coordinates_are_pairs(&mesh, dc, true, true));
    let g = decode_geometry(&mesh, dc, true, true).unwrap();
    assert_eq!(g.indices, vec![0, 1, 2]);
    assert_eq!(g.normals.len(), 3);
    for n in &g.normals {
        assert!(matches!(n, Normal::Plain([0, 0, 0x3F80_0000])), "{n:?}");
    }
    let nought = |s: &Scalar| matches!(s, Scalar::Single(0));
    assert!(g.uv0.iter().all(|(a, b)| nought(a) && nought(b)));
    assert_eq!(g.uv1.as_ref().unwrap().len(), 3);
    assert_eq!(g.blend.as_ref().unwrap().len(), 3);
    assert!(g.blend.unwrap().iter().all(nought));
    let plain = decode_geometry(&mesh, dc, false, false).unwrap();
    assert!(plain.uv1.is_none() && plain.blend.is_none());
}

#[test]
fn single_coordinates_matter_only_where_they_are_read() {
    let mut mesh = triangle_mesh("materials/plain.vmat");
    mesh.vertex_buffers[0].fields.push(layout_field("TEXCOORD", 0, DxgiFormat::R32Float, 0));
    let dc = triangle_mesh_dc(&mesh).clone();
    assert!(!coordinates_are_pairs(&mesh, &dc, false, false));
    let empty = DrawCall { index_count: 0, ..dc.clone() };
    assert!(coordinates_are_pairs(&mesh, &empty, false, false));
    assert!(decode_geometry(&mesh, &empty, false, false).unwrap().positions.is_empty());
    let far = DrawCall { index_count: 30, ..dc };
    assert!(coordinates_are_pairs(&mesh, &far, false, false));
    assert!(decode_geometry(&mesh, &far, false, false).is_err());
}

#[test]
fn skins_are_put_on_before_a_draw_is_planned() {
    let mesh = triangle_mesh("materials/tv_off.vmat");
    let calls = flatten_draw_calls(&mesh);
    let mut skin: Table<String> = Table::new();
    skin.insert("materials/tv_off.vmat".to_string(), "materials/tv_on.vmat".to_string());
    let plans = plan_draws(&calls, Some(&skin));
    assert_eq!(plans[0].material, "materials/tv_on.vmat");

    let mut strip = one_draw_call("materials/x.vmat", false);
    strip.is_triangle_list = false;
    let mut bare = one_draw_call("materials/x.vmat", false);
    bare.material_path = None;
    assert!(plan_draws(&vec![&strip, &bare], None).is_empty());
}

#[test]
fn meshes_are_picked_at_the_finest_level() {
    let model = Model {
        ref_meshes: vec![
            RefMesh { mesh_index: 0, mesh_path: "models/a.vmesh".to_string(), lod_mask: 1 },
            RefMesh { mesh_index: 1, mesh_path: "models/b.vmesh".to_string(), lod_mask: 2 },
        ],
        lod: LodInfo {
            mesh_lod_masks: vec![1, 2],
            switch_distances: vec![],
            combined_mask: 3,
            lowest_level: 0,
            available_levels: vec![0, 1],
        },
        ..Default::default()
    };
    let picks = model_meshes_at_lowest_lod("models/m.vmdl_c", &model);
    assert_eq!(picks.len(), 1);
    assert_eq!(picks[0].key, "models/m.vmdl_c#ref0:models/a.vmesh_c");
    assert!(matches!(&picks[0].at, MeshAt::Resource(p) if p == "models/a.vmesh_c"));
}

#[test]
fn what_was_asked_for_is_not_asked_for_again() {
    let mut seen = Seen::new();
    assert_eq!(seen.find("a"), None);
    assert_eq!(seen.note("a", true), Some(0));
    assert_eq!(seen.note("b", false), None);
    assert_eq!(seen.note("c", true), Some(1));
    assert_eq!(seen.find("a"), Some(Some(0)));
    assert_eq!(seen.find("b"), Some(None));
    assert_eq!(seen.find("c"), Some(Some(1)));
}

#[test]
fn the_report_is_the_last_file_that_is_written() {
    let steps = write_steps(1);
    let told = |done| WriteStep::Tell(ExportStage::Writing { done, total: 3 });
    assert_eq!(
        steps,
        vec![
            WriteStep::Check,
            told(0),
            WriteStep::Check,
            WriteStep::Extra(0),
            told(1),
            WriteStep::Check,
            WriteStep::Glb,
            told(2),
            WriteStep::Report,
            told(3),
        ]
    );
}

#[test]
fn errors_say_what_went_wrong() {
    let world = ExportError::World(SourceError::NotFound { path: "world.vwrld_c".to_string() });
    assert!(world.message().starts_with("failed to read world.vwrld_c: "));
    assert!(ExportError::NoEntityLumps.message().contains("no entity lumps"));
    let glb = ExportError::Glb(GlbTooLarge { bytes: 7 });
    assert!(glb.message().contains('7'));
    assert!(ExportWriteError::Export(glb).message().starts_with("failed to write glb"));
    let io = ExportWriteError::Io { path: "a".to_string(), message: "full".to_string() };
    assert_eq!(io.message(), "failed to write a: full");
    assert_eq!(ExportWriteError::Cancelled.message(), "cancelled");
    assert!(ExportOptions::default().max_texture > 0);
}

#[test]
fn a_document_has_a_world_and_entities() {
    let mut ctx = Ctx::new();
    let world = ctx.add_group("world", &vec![]);
    let entities = ctx.add_group("entities", &vec![]);
    let lighting = Lighting {
        lightmap_version: 8,
        uv_scale: [0x3F80_0000; 2],
        lightmaps: vec![],
        fallbacks: vec![],
    };
    let surroundings = Surroundings {
        max_texture: 1024,
        sun: None,
        shadow_channel: None,
        probe_volumes: 0,
        lighting,
        sky: None,
        fog: None,
        post_processing: None,
        sky_camera: None,
    };
    let report = serde(&write_report(&ctx, &surroundings));
    assert!(report["sky"].is_null());
    assert!(report["skyCamera"].is_null());
    assert!(report["lighting"].is_object());
    let files = collect_files(
        surroundings.lighting,
        vec![("render_lut.bin".to_string(), vec![1])],
        vec![("render_tex/a.bin".to_string(), vec![2])],
    );
    assert_eq!(files.len(), 2);
    let (json, _, textures) = finish_document(ctx, world, entities);
    let doc = serde(&json);
    assert_eq!(doc["scenes"][0]["nodes"], serde_json::from_str::<Value>("[0,1]").unwrap());
    assert_eq!(doc["nodes"][0]["name"], "world");
    assert!(textures.is_empty());
}

#[test]
fn a_draw_call_waits_for_its_material_and_is_then_drawn() {
    let path = "materials/plain.vmat";
    let mesh = triangle_mesh(path);
    let dc = triangle_mesh_dc(&mesh);
    let raw = base_material("csgo_vertexlitgeneric");
    let tint = [255u8; 4];
    let mut ctx = Ctx::new();
    ctx.know_material(path, Some(raw));
    assert!(ctx.can_draw(path, triangle_count(dc)));
    let step = ctx.begin_draw("a", 0, false, &mesh, dc, path, &tint);
    assert!(matches!(step, DrawStep::Material), "{step:?}");
    assert_eq!(ctx.report.counts.triangles, 0);
    let added = ctx.add_gltf_material(path, tint, &inputs(), &vec![None; SLOT_COUNT]);
    let step = ctx.begin_draw("a", 0, false, &mesh, dc, path, &tint);
    let DrawStep::Drawn { material, lighting, triangles, step, .. } = step else {
        panic!("{step:?}");
    };
    assert_eq!((material, lighting, triangles), (added, LightingClass::Probe, 1));
    assert!(matches!(step, MeshStep::Build), "{step:?}");
    assert_eq!(ctx.report.counts.probe_draw_calls, 1);
    let other = [0u8; 4];
    let step = ctx.begin_draw("a", 0, false, &mesh, dc, path, &other);
    assert!(matches!(step, DrawStep::Material), "{step:?}");

    let clip = "materials/tools/clip.vmat";
    ctx.know_material(clip, Some(tools_material()));
    let step = ctx.begin_draw("a", 0, false, &mesh, dc, clip, &tint);
    assert!(matches!(step, DrawStep::Dropped), "{step:?}");
    assert_eq!(ctx.report.tools_drop(clip).triangles, 1);
    assert_eq!(ctx.report.counts.triangles, 1);
}

fn property(key: &str, s: &str) -> Property {
    Property {
        key: key.to_string(),
        kind: ValueKind::Text,
        text: Some(s.to_string()),
        flag: None,
        number: None,
        single: None,
        vector: None,
    }
}

#[test]
fn entities_are_counted_when_it_is_known_what_becomes_of_them() {
    let mut ctx = Ctx::new();
    let nameless = Entity::new(vec![]);
    assert!(ctx.begin_entity(&nameless).is_none());
    assert!(ctx.report.class_stats.is_empty());
    let bare = Entity::new(vec![property("classname", "prop")]);
    assert!(ctx.begin_entity(&bare).is_none());
    let prop = Entity::new(vec![property("classname", "prop"), property("model", "a.vmdl")]);
    assert_eq!(ctx.begin_entity(&prop).as_deref(), Some("a.vmdl_c"));
    assert_eq!(ctx.report.class("prop").total, 1);
    assert!(ctx.can_count(&prop, Outcome::Placed(7)));
    ctx.end_entity(&prop, Some(7));
    ctx.end_entity(&prop, None);
    assert!(!ctx.can_count(&prop, Outcome::Placed(u64::MAX)));
    let s = ctx.report.class("prop");
    assert_eq!((s.total, s.with_model, s.drawn, s.triangles, s.not_found), (3, 2, 1, 7, 1));
}

#[test]
fn a_report_with_odd_lighting_is_refused_only_for_want_of_a_camera() {
    let report = |camera: Json| {
        let mut m = Members::new();
        m.put("skyCamera", camera);
        m.put_uint("lighting", 1);
        m.object()
    };
    assert!(can_merge(&report(Json::Null)));
    assert!(!can_merge(&report(Members::new().object())));
    let reference = find_skybox_reference(&vec![EntityLump {
        name: String::new(),
        child_lumps: vec![],
        entities: vec![Entity::new(vec![
            property("classname", "skybox_reference"),
            property("targetmapname", "maps/prefabs/sky.vmap"),
        ])],
    }])
    .unwrap();
    let sky = ExportResult { glb: vec![], report: report(Json::Null), extra_files: vec![] };
    assert!(merge_skybox_export(&reference, sky).is_err());
}

#[test]
fn triangles_are_summed_while_they_can_be_counted() {
    assert_eq!(sum_triangles(&vec![]), Some(0));
    assert_eq!(sum_triangles(&vec![3, 0, 4]), Some(7));
    assert_eq!(sum_triangles(&vec![u64::MAX, 1]), None);
}

#[test]
fn a_tint_shares_its_material_and_another_gets_its_own() {
    let path = "materials/plain.vmat";
    let mesh = triangle_mesh(path);
    let dc = triangle_mesh_dc(&mesh);
    let mut ctx = Ctx::new();
    ctx.know_material(path, Some(base_material("generic")));
    let loads = vec![None; SLOT_COUNT];
    let white = ctx.add_gltf_material(path, [255; 4], &inputs(), &loads);
    let black = ctx.add_gltf_material(path, [0; 4], &inputs(), &loads);
    assert_eq!((white, black), (0, 1));
    for (tint, wanted) in [([255u8; 4], white), ([0; 4], black), ([255; 4], white)] {
        match ctx.begin_draw("a", 0, false, &mesh, dc, path, &tint) {
            DrawStep::Drawn { material, .. } => assert_eq!(material, wanted),
            step => panic!("{step:?}"),
        }
    }
    assert_eq!(ctx.gltf_materials.len(), 2);
    assert_eq!(ctx.catalog.count(), 0);
}

#[test]
fn a_lump_counts_each_entity_by_its_class() {
    let mut ctx = Ctx::new();
    let of = |class: &str, model: &str| {
        Entity::new(vec![property("classname", class), property("model", model)])
    };
    let lump = vec![
        (of("prop", "a.vmdl"), Some(5)),
        (Entity::new(vec![property("model", "a.vmdl")]), None),
        (of("light", ""), None),
        (of("prop", "b.vmdl"), None),
        (of("csgo_player_previewmodel", "c.vmdl"), None),
        (of("prop", "a.vmdl"), Some(0)),
    ];
    for (e, drawn) in &lump {
        assert!(ctx.can_count(e, Outcome::NoModel));
        if ctx.begin_entity(e).is_some() {
            ctx.end_entity(e, *drawn);
        }
    }
    assert_eq!(ctx.report.class("prop").total, 3);
    assert_eq!(ctx.report.class("light").total, 1);
    assert_eq!(ctx.report.class("csgo_player_previewmodel").total, 1);
    assert_eq!(ctx.report.class_stats.len(), 3);
    for (_, s) in &ctx.report.class_stats {
        assert_eq!(s.with_model, s.drawn + s.preview + s.hidden + s.not_found + s.no_mesh);
    }
}

#[test]
fn a_mesh_refers_to_vertices_that_it_has() {
    let mesh = triangle_mesh("materials/plain.vmat");
    let geometry = decode_geometry(&mesh, triangle_mesh_dc(&mesh), false, true).unwrap();
    let streams = streams_of(&geometry, [1.0, 1.0]);
    let mut ctx = Ctx::new();
    assert!(fits(&ctx.builder, &geometry, &streams, false));
    let built = s2render::geometry::add_geometry(&mut ctx.builder, &geometry, &streams, false);
    assert_eq!(built.triangles, 1);
    let (json, _) = ctx.builder.finish(&vec![], &vec![], Members::new().object());
    let doc = serde(&json);
    let count = |i: u32| doc["accessors"][i as usize]["count"].as_u64().unwrap();
    for i in [built.position, built.normal, built.uv0, built.blend.unwrap()] {
        assert_eq!(count(i), 3);
    }
    assert!(built.uv1.is_none());
    assert_eq!(count(built.indices), 3);
    assert!(geometry.indices.iter().all(|&i| u64::from(i) < count(built.position)));
}

#[test]
fn a_map_with_a_sky_camera_can_be_folded_into_another() {
    let scale = Property { single: Some(16.0f32.to_bits()), ..property("scale", "16") };
    let mut camera = Entity::new(vec![property("classname", "sky_camera"), scale]);
    camera.origin = [1.0f32, 2.0, 3.0].map(f32::to_bits);
    let reference = Entity::new(vec![
        property("classname", "skybox_reference"),
        property("targetmapname", "maps/prefabs/sky.vmap"),
    ]);
    let lumps = |entities: Vec<Entity>| {
        vec![EntityLump { name: "default".to_string(), child_lumps: vec![], entities }]
    };
    let outer = lumps(vec![reference]);
    let sky = lumps(vec![Entity::new(vec![property("classname", "sky_camera")]), camera]);
    assert!(find_sky_camera(&outer).is_none());
    assert!(find_skybox_reference(&sky).is_none());
    let reference = find_skybox_reference(&outer).unwrap();
    assert_eq!(reference.target_map, "maps/prefabs/sky.vmap");
    for (map, can_be_merged) in [(&sky, true), (&outer, false)] {
        let surroundings = Surroundings {
            max_texture: 1024,
            sun: None,
            shadow_channel: None,
            probe_volumes: 0,
            lighting: Lighting {
                lightmap_version: 8,
                uv_scale: [0x3F80_0000; 2],
                lightmaps: vec![],
                fallbacks: vec![],
            },
            sky: None,
            fog: None,
            post_processing: None,
            sky_camera: find_sky_camera(map),
        };
        let report = write_report(&Ctx::new(), &surroundings);
        let written = serde(&report);
        assert_eq!(written["skyCamera"].is_object(), can_be_merged);
        if can_be_merged {
            assert_eq!(written["skyCamera"]["scale"], 16.0);
            assert_eq!(written["skyCamera"]["origin"][2], 3.0);
        }
        assert!(can_merge(&report));
        let result = ExportResult { glb: vec![], report, extra_files: vec![] };
        assert_eq!(merge_skybox_export(&reference, result).is_ok(), can_be_merged);
    }
}

#[test]
fn a_fresh_export_has_room() {
    let mesh = triangle_mesh("materials/plain.vmat");
    let geometry = decode_geometry(&mesh, triangle_mesh_dc(&mesh), false, false).unwrap();
    let mut streams = streams_of(&geometry, [1.0, 1.0]);
    let ctx = Ctx::new();
    assert!(ctx.builder.has_space());
    assert!(ctx.builder.can_take(1 << 20));
    assert!(ctx.can_bake(3));
    assert!(ctx.catalog.has_room(1 << 20));
    assert!(ctx.catalog.total_is_countable());
    assert!(fits(&ctx.builder, &geometry, &streams, false));
    streams.positions[0] = [1, 2, 3];
    assert!(!fits(&ctx.builder, &geometry, &streams, false));
    assert!(fits(&ctx.builder, &geometry, &streams, true));
    streams.normals.pop();
    assert!(!fits(&ctx.builder, &geometry, &streams, true));
    let mut wild = geometry.clone();
    wild.indices[0] = 3;
    let streams = streams_of(&geometry, [1.0, 1.0]);
    assert!(!fits(&ctx.builder, &wild, &streams, false));
}

#[test]
fn a_sun_tells_of_its_shadow() {
    let bits = |v: [f32; 3]| v.map(f32::to_bits);
    let sun = Sun {
        direction: bits([0.0, 0.6, -0.8]),
        to_sun: bits([0.0, -0.6, 0.8]),
        color: bits([1.0, 0.5, 0.25]),
        color_linear: bits([2.0, 1.0, 0.5]),
        brightness: 2.0f32.to_bits(),
        brightness_scale: 1.0f32.to_bits(),
        skycolor: bits([1.0, 1.0, 1.0]),
        skyintensity: 3.0f32.to_bits(),
    };
    let lit = serde(&write_sun(&sun, Some(2)));
    assert_eq!(lit["bakedShadowChannel"], 2);
    assert_eq!(lit["colorLinear"][0], 2.0);
    assert_eq!(lit["color"][2], 0.25);
    assert_eq!(lit["skyintensity"], 3.0);
    assert_eq!(lit["renderSpecular"], true);
    assert!(serde(&write_sun(&sun, None))["bakedShadowChannel"].is_null());
}

#[test]
fn volumes_without_an_atlas_are_told_of() {
    assert!(atlas_gap(true, 4).is_none());
    assert!(atlas_gap(false, 0).is_none());
    assert_eq!(
        atlas_gap(false, 1).as_deref(),
        Some("probe volumes present but no lightprobetexture/lightprobetexture_dlshd found")
    );
}
