//! The `m_vertexBuffers`/`m_indexBuffers` form: inline data, and data in a block of its own.

use s2render::attributes::decode_positions;
use s2render::buffer::parse_kv3_buffers;
use s2render::kv::{Block, Number, Object, Resource, Value};
use s2render::MeshError;

const POSITION_FORMAT: u32 = 6;

fn whole(i: i64) -> Value {
    Value::Number(Number {
        signed: Some(i),
        unsigned: u64::try_from(i).ok(),
        single: (i as f32).to_bits(),
    })
}

fn empty_resource() -> Resource {
    Resource {
        data: Ok(Value::Null),
        blocks: vec![],
    }
}

fn resource_with_block(kind: [u8; 4], data: &[u8]) -> Resource {
    Resource {
        data: Ok(Value::Null),
        blocks: vec![Block {
            kind,
            bytes: data.to_vec(),
            tree: Err("not a tree".to_string()),
        }],
    }
}

fn zstd_compress(data: &[u8]) -> Vec<u8> {
    let mut out = Vec::new();
    ruzstd::encoding::compress(
        std::io::Cursor::new(data),
        &mut out,
        ruzstd::encoding::CompressionLevel::Fastest,
    );
    out
}

fn input_layout_field(name: &str, format: u32, offset: u32) -> Value {
    let mut o = Object::new();
    o.push("m_pSemanticName", Value::String(name.to_string()));
    o.push("m_nSemanticIndex", whole(0));
    o.push("m_Format", whole(i64::from(format)));
    o.push("m_nOffset", whole(i64::from(offset)));
    Value::Object(o)
}

fn positions_to_bytes(positions: &[[f32; 3]]) -> Vec<u8> {
    positions
        .iter()
        .flat_map(|p| p.iter().flat_map(|f| f.to_le_bytes()))
        .collect()
}

fn as_floats(positions: &[[u32; 3]]) -> Vec<[f32; 3]> {
    positions.iter().map(|p| p.map(f32::from_bits)).collect()
}

fn wrap_vertex_buffers(entry: Value) -> Value {
    let mut root = Object::new();
    root.push("m_vertexBuffers", Value::Array(vec![entry]));
    Value::Object(root)
}

#[test]
fn inline_data_raw_when_already_full_size() {
    let positions = vec![[1.0, 2.0, 3.0], [4.0, 5.0, 6.0]];
    let mut entry = Object::new();
    entry.push("m_nElementCount", whole(positions.len() as i64));
    entry.push("m_nElementSizeInBytes", whole(12));
    entry.push(
        "m_inputLayoutFields",
        Value::Array(vec![input_layout_field("POSITION", POSITION_FORMAT, 0)]),
    );
    entry.push("m_pData", Value::Blob(positions_to_bytes(&positions)));
    let root = wrap_vertex_buffers(Value::Object(entry));

    let resource = empty_resource();
    let (vertex, index) = parse_kv3_buffers(&resource, &root, "DATA").unwrap();
    assert_eq!(index.len(), 0);
    let field = vertex[0].field("POSITION", 0).unwrap();
    assert_eq!(
        as_floats(&decode_positions(&vertex[0], field).unwrap()),
        positions
    );
}

#[test]
fn inline_data_meshopt_compressed() {
    let positions = vec![[0.0, 0.0, 0.0], [1.0, -2.0, 3.5], [9.0, 9.0, 9.0]];
    let compressed = meshopt::encode_vertex_buffer(&positions).unwrap();

    let mut entry = Object::new();
    entry.push("m_nElementCount", whole(positions.len() as i64));
    entry.push("m_nElementSizeInBytes", whole(12));
    entry.push(
        "m_inputLayoutFields",
        Value::Array(vec![input_layout_field("POSITION", POSITION_FORMAT, 0)]),
    );
    entry.push("m_pData", Value::Blob(compressed));
    let root = wrap_vertex_buffers(Value::Object(entry));

    let resource = empty_resource();
    let (vertex, _) = parse_kv3_buffers(&resource, &root, "DATA").unwrap();
    let field = vertex[0].field("POSITION", 0).unwrap();
    assert_eq!(
        as_floats(&decode_positions(&vertex[0], field).unwrap()),
        positions
    );
}

#[test]
fn block_indexed_zstd_plus_meshopt() {
    let positions = vec![[1.0, 2.0, 3.0]; 16];
    let meshopt_bytes = meshopt::encode_vertex_buffer(&positions).unwrap();
    let stored = zstd_compress(&meshopt_bytes);
    let resource = resource_with_block(*b"MVTX", &stored);

    let mut entry = Object::new();
    entry.push("m_nElementCount", whole(positions.len() as i64));
    entry.push("m_nElementSizeInBytes", whole(12));
    entry.push(
        "m_inputLayoutFields",
        Value::Array(vec![input_layout_field("POSITION", POSITION_FORMAT, 0)]),
    );
    entry.push("m_nBlockIndex", whole(0));
    entry.push("m_bMeshoptCompressed", Value::Bool(true));
    entry.push("m_bCompressedZSTD", Value::Bool(true));
    let root = wrap_vertex_buffers(Value::Object(entry));

    let (vertex, _) = parse_kv3_buffers(&resource, &root, "DATA").unwrap();
    let field = vertex[0].field("POSITION", 0).unwrap();
    assert_eq!(
        as_floats(&decode_positions(&vertex[0], field).unwrap()),
        positions
    );
}

#[test]
fn block_indexed_missing_index_errors_not_panics() {
    let resource = empty_resource();
    let mut entry = Object::new();
    entry.push("m_nElementCount", whole(1));
    entry.push("m_nElementSizeInBytes", whole(12));
    entry.push("m_nBlockIndex", whole(0));
    entry.push("m_bMeshoptCompressed", Value::Bool(false));
    entry.push("m_bCompressedZSTD", Value::Bool(false));
    let root = wrap_vertex_buffers(Value::Object(entry));

    let error = parse_kv3_buffers(&resource, &root, "DATA").unwrap_err();
    assert!(
        matches!(error, MeshError::BlockNotFound { index: 0, .. }),
        "{error:?}"
    );
}

#[test]
fn an_entry_without_a_count_names_the_key_it_lacks() {
    let root = wrap_vertex_buffers(Value::Object(Object::new()));
    let error = parse_kv3_buffers(&empty_resource(), &root, "DATA").unwrap_err();
    match error {
        MeshError::Missing { path } => assert_eq!(path, "DATA.m_vertexBuffers[0].m_nElementCount"),
        other => panic!("{other:?}"),
    }
}

#[test]
fn a_list_that_is_no_list_is_the_wrong_type() {
    let mut root = Object::new();
    root.push("m_vertexBuffers", whole(3));
    let error = parse_kv3_buffers(&empty_resource(), &Value::Object(root), "DATA").unwrap_err();
    assert!(
        matches!(error, MeshError::WrongType { expected: "array", .. }),
        "{error:?}"
    );
}
