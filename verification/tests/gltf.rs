//! The glTF document: its frame, its streams and what a reader makes of them.

use s2render::gltf::{
    frame, node_matrix, pad4, Accessor, GltfBuilder, Shape, COMPONENT_TYPE_BYTE,
    COMPONENT_TYPE_FLOAT, COMPONENT_TYPE_SHORT, COMPONENT_TYPE_UNSIGNED_INT,
    COMPONENT_TYPE_UNSIGNED_SHORT,
};
use s2render::json::{Json, Members};
use s2render::world::{Transform, IDENTITY_TRANSFORM};
use serde_json::Value;

const POSITION_STEP: f32 = 1.0 / 16.0;

type Rows = [[f32; 4]; 3];

fn serde(j: &Json) -> Value {
    match j {
        Json::Null => Value::Null,
        Json::Bool(b) => Value::from(*b),
        Json::Int(i) => Value::from(*i),
        Json::UInt(u) => Value::from(*u),
        Json::Single(bits) => Value::from(f32::from_bits(*bits)),
        Json::Double(bits) => Value::from(f64::from_bits(*bits)),
        Json::Str(s) => Value::from(s.clone()),
        Json::Array(items) => Value::Array(items.iter().map(serde).collect()),
        Json::Object(list) => {
            Value::Object(list.iter().map(|(k, v)| (k.clone(), serde(v))).collect())
        }
    }
}

fn glb_of(builder: GltfBuilder, roots: Vec<u32>) -> Vec<u8> {
    let (json, bin) = builder.finish(&roots, &vec![], Members::new().object());
    frame(serde_json::to_vec(&serde(&json)).unwrap(), bin).unwrap()
}

fn glb_json(bytes: &[u8]) -> Value {
    let json_len = u32::from_le_bytes(bytes[12..16].try_into().unwrap()) as usize;
    serde_json::from_slice(&bytes[20..20 + json_len]).unwrap()
}

/// The bytes of the stream of a view, and how many elements it holds.
fn stream_of<'a>(glb: &'a [u8], doc: &Value, view: usize) -> (&'a [u8], usize) {
    let ext = &doc["bufferViews"][view]["extensions"]["KHR_meshopt_compression"];
    let byte_offset = ext["byteOffset"].as_u64().unwrap() as usize;
    let byte_length = ext["byteLength"].as_u64().unwrap() as usize;
    let count = ext["count"].as_u64().unwrap() as usize;
    let json_len = u32::from_le_bytes(glb[12..16].try_into().unwrap()) as usize;
    let bin_start = 20 + json_len + 8;
    (&glb[bin_start + byte_offset..bin_start + byte_offset + byte_length], count)
}

fn primitive_mesh(attribute: &str, accessor: u32, indices: Option<u32>) -> Json {
    let mut attributes = Members::new();
    attributes.put_uint(attribute, u64::from(accessor));
    let mut primitive = Members::new();
    primitive.put_object("attributes", attributes);
    if let Some(i) = indices {
        primitive.put_uint("indices", u64::from(i));
    }
    let mut mesh = Members::new();
    mesh.put_array("primitives", vec![primitive.object()]);
    mesh.object()
}

fn mesh_node(mesh: u32) -> Json {
    let mut node = Members::new();
    node.put_uint("mesh", u64::from(mesh));
    node.object()
}

/// Adds positions in steps, and gives the transform from steps to units.
fn add_positions(b: &mut GltfBuilder, positions: &[[f32; 3]]) -> (u32, Rows) {
    let mut min = [f32::INFINITY; 3];
    let mut max = [f32::NEG_INFINITY; 3];
    for p in positions {
        for c in 0..3 {
            min[c] = min[c].min(p[c]);
            max[c] = max[c].max(p[c]);
        }
    }
    let mut center = [0i64; 3];
    for c in 0..3 {
        center[c] = ((min[c] + max[c]) * 0.5 / POSITION_STEP).round() as i64;
    }
    let grid: Vec<[i64; 3]> = positions
        .iter()
        .map(|p| p.map(|v| (v / POSITION_STEP).round() as i64))
        .collect();
    let bits: Vec<[u32; 3]> = positions.iter().map(|p| p.map(f32::to_bits)).collect();
    let (accessor, on_grid) = b.add_positions(
        &bits,
        &grid,
        (center[0], center[1], center[2]),
        (min[0].to_bits(), min[1].to_bits(), min[2].to_bits()),
        (max[0].to_bits(), max[1].to_bits(), max[2].to_bits()),
    );
    let at = |c: usize| center[c] as f32 * POSITION_STEP;
    let transform = if on_grid {
        [
            [POSITION_STEP, 0.0, 0.0, at(0)],
            [0.0, POSITION_STEP, 0.0, at(1)],
            [0.0, 0.0, POSITION_STEP, at(2)],
        ]
    } else {
        [[1.0, 0.0, 0.0, 0.0], [0.0, 1.0, 0.0, 0.0], [0.0, 0.0, 1.0, 0.0]]
    };
    (accessor, transform)
}

fn compose(outer: &Rows, inner: &Rows) -> Rows {
    let mut out = [[0f32; 4]; 3];
    for row in 0..3 {
        for col in 0..3 {
            out[row][col] = (0..3).map(|k| outer[row][k] * inner[k][col]).sum();
        }
        out[row][3] = (0..3).map(|k| outer[row][k] * inner[k][3]).sum::<f32>() + outer[row][3];
    }
    out
}

fn flat(t: &Rows) -> Transform {
    let mut out = [0u32; 12];
    for row in 0..3 {
        for col in 0..4 {
            out[row * 4 + col] = t[row][col].to_bits();
        }
    }
    out
}

fn unorm16(v: f32) -> u16 {
    (v.clamp(0.0, 1.0) * 65535.0).round() as u16
}

#[test]
fn glb_round_trip_parses_as_valid_header_and_json() {
    let mut b = GltfBuilder::new();
    let (pos, _) = add_positions(&mut b, &[[0.0, 0.0, 0.0], [1.0, 0.0, 0.0], [0.0, 1.0, 0.0]]);
    let idx = b.add_indices(&vec![0, 1, 2]);
    let mesh = b.add_mesh(primitive_mesh("POSITION", pos, Some(idx)));
    let node = b.add_node(mesh_node(mesh));
    let bytes = glb_of(b, vec![node]);

    assert_eq!(&bytes[0..4], b"glTF");
    let version = u32::from_le_bytes(bytes[4..8].try_into().unwrap());
    assert_eq!(version, 2);
    let total_len = u32::from_le_bytes(bytes[8..12].try_into().unwrap()) as usize;
    assert_eq!(total_len, bytes.len());

    let json_len = u32::from_le_bytes(bytes[12..16].try_into().unwrap()) as usize;
    assert_eq!(&bytes[16..20], b"JSON");
    let json_bytes = &bytes[20..20 + json_len];
    let doc: Value = serde_json::from_slice(json_bytes).unwrap();
    assert_eq!(doc["asset"]["version"], "2.0");
    assert_eq!(doc["meshes"].as_array().unwrap().len(), 1);
    let used: Vec<&str> = doc["extensionsUsed"]
        .as_array()
        .unwrap()
        .iter()
        .map(|v| v.as_str().unwrap())
        .collect();
    let required: Vec<&str> = doc["extensionsRequired"]
        .as_array()
        .unwrap()
        .iter()
        .map(|v| v.as_str().unwrap())
        .collect();
    for ext in ["KHR_mesh_quantization", "KHR_meshopt_compression"] {
        assert!(used.contains(&ext), "{used:?}");
        assert!(required.contains(&ext), "{required:?}");
    }
    // The second buffer has no bytes: the outer halves of the compressed views point into it.
    assert_eq!(doc["buffers"].as_array().unwrap().len(), 2);
    assert!(doc["buffers"][1].get("uri").is_none());

    let bin_chunk_start = 20 + json_len;
    let bin_len = u32::from_le_bytes(
        bytes[bin_chunk_start..bin_chunk_start + 4]
            .try_into()
            .unwrap(),
    ) as usize;
    assert_eq!(&bytes[bin_chunk_start + 4..bin_chunk_start + 8], b"BIN\0");
    assert!(bin_len > 0);
}

#[test]
fn node_matrix_identity_is_gltf_identity() {
    let m = node_matrix(&IDENTITY_TRANSFORM).map(f32::from_bits);
    assert_eq!(
        m,
        [1.0, 0.0, 0.0, 0.0, 0.0, 1.0, 0.0, 0.0, 0.0, 0.0, 1.0, 0.0, 0.0, 0.0, 0.0, 1.0]
    );
}

#[test]
fn node_matrix_carries_translation_in_the_last_column() {
    let mut t = IDENTITY_TRANSFORM;
    t[3] = 10.0f32.to_bits();
    t[7] = 20.0f32.to_bits();
    t[11] = 30.0f32.to_bits();
    let m = node_matrix(&t).map(f32::from_bits);
    assert_eq!([m[12], m[13], m[14]], [10.0, 20.0, 30.0]);
}

#[test]
fn lpv_u16_round_trips_within_quantization_error() {
    let mut b = GltfBuilder::new();
    let light = [1.0f32, 2.0, 4.0, 0.5].map(|v| unorm16(v / 8.0));
    let idx = b.add_lpv_u16(&vec![light]);
    let acc: Accessor = b.accessor(idx);
    assert_eq!(acc.component_type, COMPONENT_TYPE_UNSIGNED_SHORT);
    assert_eq!(acc.shape, Shape::Vec4);
    assert!(acc.normalized);
}

#[test]
fn uv1_u16_does_not_declare_mesh_quantization() {
    let mut b = GltfBuilder::new();
    let idx = b.add_uv1_u16(&vec![[unorm16(0.5), unorm16(1.0)]]);
    let acc = b.accessor(idx);
    assert_eq!(acc.component_type, COMPONENT_TYPE_UNSIGNED_SHORT);
    assert_eq!(acc.shape, Shape::Vec2);
    assert!(acc.normalized);
    let mesh = b.add_mesh(primitive_mesh("TEXCOORD_1", idx, None));
    let node = b.add_node(mesh_node(mesh));
    let bytes = glb_of(b, vec![node]);
    let doc = glb_json(&bytes);
    let used: Vec<&str> = doc["extensionsUsed"]
        .as_array()
        .unwrap()
        .iter()
        .map(|v| v.as_str().unwrap())
        .collect();
    assert_eq!(used, vec!["KHR_meshopt_compression"], "{doc:?}");
    assert_eq!(
        doc["extensionsRequired"].as_array().unwrap(),
        &vec![Value::from("KHR_meshopt_compression")],
        "{doc:?}"
    );
}

#[test]
fn indices_below_u16_max_use_u16_and_65535_forces_u32() {
    let mut b = GltfBuilder::new();
    let small = b.add_indices(&vec![0, 1, 65534]);
    let large = b.add_indices(&vec![0, 1, 65535]);
    assert_eq!(b.accessor(small).component_type, COMPONENT_TYPE_UNSIGNED_SHORT);
    assert_eq!(b.accessor(large).component_type, COMPONENT_TYPE_UNSIGNED_INT);
}

#[test]
fn triangles_are_compressed_and_keep_their_corners() {
    let mut b = GltfBuilder::new();
    let indices = vec![0, 1, 2, 2, 1, 3];
    let idx = b.add_indices(&indices);
    let view = b.accessor(idx).view as usize;
    assert!(b.buffer_view(view as u32).stream.unwrap().triangles);
    let glb = glb_of(b, vec![]);
    let doc = glb_json(&glb);
    let (bytes, count) = stream_of(&glb, &doc, view);
    assert_eq!(count, 6);
    let decoded: Vec<u32> = meshopt::decode_index_buffer(bytes, count).unwrap();
    let corners = |v: &[u32]| -> Vec<Vec<u32>> {
        v.chunks(3)
            .map(|t| {
                let mut t = t.to_vec();
                t.sort();
                t
            })
            .collect()
    };
    assert_eq!(corners(&decoded), corners(&indices));
}

#[test]
fn a_list_that_is_no_list_of_triangles_is_left_plain() {
    let mut b = GltfBuilder::new();
    let idx = b.add_indices(&vec![0, 1, 2, 3]);
    let view = b.accessor(idx).view;
    assert!(b.buffer_view(view).stream.is_none());
}

#[test]
fn positions_quantize_and_compress_round_trip_within_scale_over_32767() {
    let original = [
        [0.0, 0.0, 0.0],
        [100.0, 0.0, 0.0],
        [0.0, 50.0, 0.0],
        [0.0, 0.0, -25.0],
    ];
    let mut b = GltfBuilder::new();
    let (pos_idx, transform) = add_positions(&mut b, &original);
    assert_eq!(b.accessor(pos_idx).component_type, COMPONENT_TYPE_SHORT);
    let view_idx = b.accessor(pos_idx).view as usize;
    let mesh = b.add_mesh(primitive_mesh("POSITION", pos_idx, None));
    let node = b.add_node(mesh_node(mesh));
    let bytes = glb_of(b, vec![node]);
    let doc = glb_json(&bytes);

    let (compressed, count) = stream_of(&bytes, &doc, view_idx);
    assert_eq!(count, original.len());
    let decoded: Vec<[i16; 4]> = meshopt::decode_vertex_buffer(compressed, count).unwrap();

    // A reader takes the integers as they are: the step stands in the node's matrix.
    let tolerance = POSITION_STEP / 2.0 + 1e-4;
    for (p, q) in original.iter().zip(decoded.iter()) {
        for c in 0..3 {
            let approx = transform[c][c] * f32::from(q[c]) + transform[c][3];
            assert!(
                (approx - p[c]).abs() <= tolerance,
                "axis {c}: reconstructed {approx}, original {}, tolerance {tolerance}",
                p[c]
            );
        }
    }
}

#[test]
fn positions_from_different_meshes_share_a_vertex_bit_identically() {
    let shared = [296.0f32, -1596.5, -176.0];
    let mesh_a = [shared, [100.0, -1400.0, -176.0], [296.0, -1700.0, 0.0]];
    let mesh_b = [shared, [900.0, 200.0, 300.0], [-500.0, -2800.0, -600.0]];

    let mut b = GltfBuilder::new();
    let (idx_a, transform_a) = add_positions(&mut b, &mesh_a);
    let (idx_b, transform_b) = add_positions(&mut b, &mesh_b);
    assert_eq!(
        b.position_float_fallback_meshes(),
        0,
        "should fit the SHORT grid"
    );
    let view_a = b.accessor(idx_a).view as usize;
    let view_b = b.accessor(idx_b).view as usize;

    let mesh_a_idx = b.add_mesh(primitive_mesh("POSITION", idx_a, None));
    let mesh_b_idx = b.add_mesh(primitive_mesh("POSITION", idx_b, None));
    let node_a = b.add_node(mesh_node(mesh_a_idx));
    let node_b = b.add_node(mesh_node(mesh_b_idx));
    let bytes = glb_of(b, vec![node_a, node_b]);
    let doc = glb_json(&bytes);

    let decode_first_vertex = |view_idx: usize, transform: Rows| -> [f32; 3] {
        let (compressed, count) = stream_of(&bytes, &doc, view_idx);
        let decoded: Vec<[i16; 4]> = meshopt::decode_vertex_buffer(compressed, count).unwrap();
        let q = decoded[0];
        [
            transform[0][0] * f32::from(q[0]) + transform[0][3],
            transform[1][1] * f32::from(q[1]) + transform[1][3],
            transform[2][2] * f32::from(q[2]) + transform[2][3],
        ]
    };

    let world_a = decode_first_vertex(view_a, transform_a);
    let world_b = decode_first_vertex(view_b, transform_b);
    assert_eq!(
        world_a, world_b,
        "the same shared vertex decoded to different world positions from mesh A vs mesh B"
    );
}

#[test]
fn positions_quantize_compose_with_instance_transform_matches_world_space() {
    let local = [
        [10.0, 20.0, -5.0],
        [110.0, 20.0, -5.0],
        [10.0, 70.0, -5.0],
        [10.0, 20.0, 15.0],
    ];
    let angle = 0.4f32;
    let (s, c) = angle.sin_cos();
    let instance = [
        [c, -s, 0.0, 500.0],
        [s, c, 0.0, -300.0],
        [0.0, 0.0, 1.0, 64.0],
    ];

    let mut b = GltfBuilder::new();
    let (pos_idx, quantize) = add_positions(&mut b, &local);
    let node_transform = compose(&instance, &quantize);
    let view_idx = b.accessor(pos_idx).view as usize;
    let mesh = b.add_mesh(primitive_mesh("POSITION", pos_idx, None));
    let mut placed = Members::new();
    placed.put_singles("matrix", &node_matrix(&flat(&node_transform)));
    placed.put_uint("mesh", u64::from(mesh));
    let node = b.add_node(placed.object());
    let bytes = glb_of(b, vec![node]);
    let doc = glb_json(&bytes);

    let (compressed, count) = stream_of(&bytes, &doc, view_idx);
    let decoded: Vec<[i16; 4]> = meshopt::decode_vertex_buffer(compressed, count).unwrap();

    // Half a step, and what the rotation rounds off.
    let tolerance = POSITION_STEP / 2.0 + 0.05;
    for (p, q) in local.iter().zip(decoded.iter()) {
        let raw = [f32::from(q[0]), f32::from(q[1]), f32::from(q[2])];
        let apply = |t: &Rows, v: [f32; 3]| -> [f32; 3] {
            let row = |r: [f32; 4]| r[0] * v[0] + r[1] * v[1] + r[2] * v[2] + r[3];
            [row(t[0]), row(t[1]), row(t[2])]
        };
        let got = apply(&node_transform, raw);
        let want = apply(&instance, *p);
        for c in 0..3 {
            assert!(
                (got[c] - want[c]).abs() <= tolerance,
                "axis {c}: got {got:?}, want {want:?}, tolerance {tolerance}"
            );
        }
    }
}

#[test]
fn a_mesh_that_leaves_the_grid_is_written_in_floats() {
    let mut b = GltfBuilder::new();
    let (idx, _) = add_positions(&mut b, &[[0.0, 0.0, 0.0], [5000.0, 0.0, 0.0]]);
    assert_eq!(b.accessor(idx).component_type, COMPONENT_TYPE_FLOAT);
    assert_eq!(b.position_float_fallback_meshes(), 1);
}

#[test]
fn normals_quantize_round_trip_within_one_over_127() {
    let original = [[1.0f32, 0.0, 0.0], [0.0, 1.0, 0.0], [0.0, 0.0, -1.0]];
    let bytes: Vec<[i8; 3]> = original
        .iter()
        .map(|n| n.map(|c| (c.clamp(-1.0, 1.0) * 127.0).round() as i8))
        .collect();
    let mut b = GltfBuilder::new();
    let idx = b.add_normals_quantized(&bytes);
    let acc = b.accessor(idx);
    assert_eq!(acc.component_type, COMPONENT_TYPE_BYTE);
    assert_eq!(acc.shape, Shape::Vec3);
    assert!(acc.normalized);

    let view_idx = acc.view as usize;
    let mesh = b.add_mesh(primitive_mesh("NORMAL", idx, None));
    let node = b.add_node(mesh_node(mesh));
    let glb = glb_of(b, vec![node]);
    let doc = glb_json(&glb);
    let (compressed, count) = stream_of(&glb, &doc, view_idx);
    let decoded: Vec<[i8; 4]> = meshopt::decode_vertex_buffer(compressed, count).unwrap();
    for (n, q) in original.iter().zip(decoded.iter()) {
        for c in 0..3 {
            let approx = f32::from(q[c]) / 127.0;
            assert!((approx - n[c]).abs() <= 1.0 / 127.0 + 1e-4);
        }
    }
}

#[test]
fn uv0_uses_u16_in_range_and_float_outside_range() {
    let mut b = GltfBuilder::new();
    let add = |b: &mut GltfBuilder, v: Vec<[f32; 2]>| {
        let bits = v.iter().map(|p| p.map(f32::to_bits)).collect();
        let quantized = v.iter().map(|p| p.map(unorm16)).collect();
        b.add_uv0(&bits, &quantized)
    };
    let in_range = add(&mut b, vec![[0.0, 1.0], [0.5, 0.25]]);
    let out_of_range = add(&mut b, vec![[2.5, 0.0]]);
    assert_eq!(b.accessor(in_range).component_type, COMPONENT_TYPE_UNSIGNED_SHORT);
    assert_eq!(b.accessor(out_of_range).component_type, COMPONENT_TYPE_FLOAT);
}

#[test]
fn a_frame_pads_its_parts_to_four_bytes() {
    let glb = frame(b"{}".to_vec(), vec![1, 2, 3]).unwrap();
    assert_eq!(glb.len(), 12 + 8 + 4 + 8 + 4);
    assert_eq!(&glb[20..24], b"{}  ");
    assert_eq!(&glb[32..36], &[1, 2, 3, 0]);
    let mut padded = vec![1u8; 5];
    pad4(&mut padded, 9);
    assert_eq!(padded, vec![1, 1, 1, 1, 1, 9, 9, 9]);
}

#[test]
fn an_image_is_kept_as_it_is() {
    let mut b = GltfBuilder::new();
    let image = b.add_image(&[9, 8, 7], "image/png");
    let texture = b.add_texture(image);
    assert_eq!((image, texture), (0, 0));
    assert_eq!(b.texture_count(), 1);
    assert_eq!(b.texture_bytes(), 3);
    let glb = glb_of(b, vec![]);
    let doc = glb_json(&glb);
    assert_eq!(doc["images"][0]["mimeType"], "image/png");
}

#[test]
fn plain_vectors_are_written_as_they_are() {
    let mut b = GltfBuilder::new();
    let three = b.add_vec3(&vec![[1.0f32, 2.0, 3.0].map(f32::to_bits)]);
    let two = b.add_vec2(&vec![[4.0f32, 5.0].map(f32::to_bits), [6.0f32, 7.0].map(f32::to_bits)]);
    let view = b.push_buffer_view(&[1, 2, 3], None);
    assert_eq!((three, two, view), (0, 1, 2));
    let a = b.accessor(three);
    assert_eq!((a.count, a.component_type, a.shape), (1, COMPONENT_TYPE_FLOAT, Shape::Vec3));
    assert_eq!(b.accessor(two).count, 2);
    assert_eq!((b.buffer_view_count(), b.accessor_count()), (3, 2));
    let blend = b.add_blend_f32(&vec![2.0f32.to_bits(), 0.5f32.to_bits()]);
    assert_eq!(b.accessor(blend).shape, Shape::Scalar);
    let glb = glb_of(b, vec![]);
    let doc = glb_json(&glb);
    let (stream, count) = stream_of(&glb, &doc, doc["accessors"][2]["bufferView"].as_u64().unwrap() as usize);
    let mut values = vec![0f32; count];
    let decoded: Vec<[u8; 4]> = meshopt::decode_vertex_buffer(stream, count).unwrap();
    for (v, d) in values.iter_mut().zip(decoded) {
        *v = f32::from_le_bytes(d);
    }
    assert_eq!(values, vec![1.0, 0.5]);
}

#[test]
fn triangles_come_back_with_their_corners_in_order() {
    let mut indices: Vec<u32> = Vec::new();
    for i in 0..40u32 {
        indices.extend_from_slice(&[i + 2, i, i + 1]);
        indices.extend_from_slice(&[0, 70_000 + i, i]);
        indices.extend_from_slice(&[0, 1, 2]);
    }
    let mut b = GltfBuilder::new();
    b.add_indices(&indices);
    let glb = glb_of(b, vec![]);
    let doc = glb_json(&glb);
    let (stream, count) = stream_of(&glb, &doc, 0);
    assert_eq!(count, indices.len());
    let decoded: Vec<u32> = meshopt::decode_index_buffer(stream, count).unwrap();
    for (a, b) in indices.chunks(3).zip(decoded.chunks(3)) {
        let turned = [[a[0], a[1], a[2]], [a[1], a[2], a[0]], [a[2], a[0], a[1]]];
        assert!(turned.contains(&[b[0], b[1], b[2]]), "{a:?} {b:?}");
    }
}
