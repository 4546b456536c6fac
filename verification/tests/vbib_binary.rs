//! Binary `VBIB` blocks: uncompressed, meshoptimizer alone, zstd alone, and both.

use s2render::attributes::decode_positions;
use s2render::buffer::parse_vbib_block;
use s2render::MeshError;

/// One buffer of a block.
struct BufferSpec {
    element_count: u32,
    /// Before the compression bits.
    element_size: u32,
    meshopt: bool,
    zstd: bool,
    /// Semantic name, semantic index, format, offset.
    fields: Vec<(String, i32, u32, u32)>,
    /// The stored bytes.
    stored: Vec<u8>,
}

fn write_entry(
    fixed: &mut [u8],
    payload: &mut Vec<u8>,
    payload_cursor: &mut usize,
    entry_start: usize,
    spec: &BufferSpec,
) {
    let ref_a = entry_start + 8;
    let ref_b = entry_start + 16;

    let attr_table_pos = *payload_cursor;
    for (name, semantic_index, format, offset) in &spec.fields {
        let mut name_bytes = [0u8; 32];
        let raw = name.as_bytes();
        let n = raw.len().min(31);
        name_bytes[..n].copy_from_slice(&raw[..n]);
        payload.extend_from_slice(&name_bytes);
        payload.extend_from_slice(&semantic_index.to_le_bytes());
        payload.extend_from_slice(&format.to_le_bytes());
        payload.extend_from_slice(&offset.to_le_bytes());
        payload.extend_from_slice(&0i32.to_le_bytes());
        payload.extend_from_slice(&0u32.to_le_bytes());
        payload.extend_from_slice(&0i32.to_le_bytes());
    }
    *payload_cursor += spec.fields.len() * 56;

    let data_pos = *payload_cursor;
    payload.extend_from_slice(&spec.stored);
    *payload_cursor += spec.stored.len();

    let size_field: u32 = spec.element_size
        | if spec.meshopt { 0 } else { 0x0400_0000 }
        | if spec.zstd { 0x0800_0000 } else { 0 };

    fixed[entry_start..entry_start + 4].copy_from_slice(&spec.element_count.to_le_bytes());
    fixed[entry_start + 4..entry_start + 8].copy_from_slice(&size_field.to_le_bytes());
    fixed[entry_start + 8..entry_start + 12]
        .copy_from_slice(&((attr_table_pos - ref_a) as u32).to_le_bytes());
    fixed[entry_start + 12..entry_start + 16]
        .copy_from_slice(&(spec.fields.len() as u32).to_le_bytes());
    fixed[entry_start + 16..entry_start + 20]
        .copy_from_slice(&((data_pos - ref_b) as u32).to_le_bytes());
    fixed[entry_start + 20..entry_start + 24]
        .copy_from_slice(&(spec.stored.len() as i32).to_le_bytes());
}

fn build_vbib(vertex: &[BufferSpec], index: &[BufferSpec]) -> Vec<u8> {
    let header_len = 16;
    let vb_table_len = vertex.len() * 24;
    let ib_table_len = index.len() * 24;
    let payload_start = header_len + vb_table_len + ib_table_len;

    let mut fixed = vec![0u8; payload_start];
    fixed[0..4].copy_from_slice(&(header_len as u32).to_le_bytes());
    fixed[4..8].copy_from_slice(&(vertex.len() as u32).to_le_bytes());
    let ib_target = header_len + vb_table_len;
    fixed[8..12].copy_from_slice(&((ib_target - 8) as u32).to_le_bytes());
    fixed[12..16].copy_from_slice(&(index.len() as u32).to_le_bytes());

    let mut payload = Vec::new();
    let mut payload_cursor = payload_start;
    for (i, spec) in vertex.iter().enumerate() {
        let at = header_len + i * 24;
        write_entry(&mut fixed, &mut payload, &mut payload_cursor, at, spec);
    }
    for (i, spec) in index.iter().enumerate() {
        let at = header_len + vb_table_len + i * 24;
        write_entry(&mut fixed, &mut payload, &mut payload_cursor, at, spec);
    }
    fixed.extend_from_slice(&payload);
    fixed
}

fn zstd_compress(data: &[u8]) -> Vec<u8> {
    let mut out = Vec::new();
    ruzstd::encoding::compress(
        std::io::Cursor::new(data),
        &mut out,
        ruzstd::encoding::CompressionLevel::Fastest,
    );
    out
}

const POSITION_FORMAT: u32 = 6;

fn position_field() -> (String, i32, u32, u32) {
    ("POSITION".to_string(), 0, POSITION_FORMAT, 0)
}

fn positions_to_bytes(positions: &[[f32; 3]]) -> Vec<u8> {
    positions
        .iter()
        .flat_map(|p| p.iter().flat_map(|f| f.to_le_bytes()))
        .collect()
}

fn as_floats(positions: &[[u32; 3]]) -> Vec<[f32; 3]> {
    positions.iter().map(|p| p.map(f32::from_bits)).collect()
}

#[test]
fn vertex_buffer_uncompressed_roundtrips() {
    let positions = vec![[1.0, 2.0, 3.0], [4.0, 5.0, 6.0], [-1.5, 0.0, 7.25]];
    let stored = positions_to_bytes(&positions);
    let bytes = build_vbib(
        &[BufferSpec {
            element_count: positions.len() as u32,
            element_size: 12,
            meshopt: false,
            zstd: false,
            fields: vec![position_field()],
            stored,
        }],
        &[],
    );

    let (vertex, index) = parse_vbib_block(&bytes).unwrap();
    assert_eq!(index.len(), 0);
    assert_eq!(vertex.len(), 1);
    let field = vertex[0].field("POSITION", 0).unwrap();
    let decoded = decode_positions(&vertex[0], field).unwrap();
    assert_eq!(as_floats(&decoded), positions);
    assert!(!vertex[0].compression.meshopt);
    assert!(!vertex[0].compression.zstd);
    assert!(vertex[0].field("POSITION", 1).is_none());
}

#[test]
fn vertex_buffer_meshopt_compressed_roundtrips() {
    // Long and smooth enough for the coder to shrink it.
    let positions: Vec<[f32; 3]> = (0..200)
        .map(|i| {
            let t = i as f32;
            [t * 0.1, (t * 0.1).sin(), 1.0]
        })
        .collect();
    let compressed = meshopt::encode_vertex_buffer(&positions).unwrap();
    assert!(
        compressed.len() < positions_to_bytes(&positions).len(),
        "the coder has to shrink the buffer"
    );

    let bytes = build_vbib(
        &[BufferSpec {
            element_count: positions.len() as u32,
            element_size: 12,
            meshopt: true,
            zstd: false,
            fields: vec![position_field()],
            stored: compressed,
        }],
        &[],
    );

    let (vertex, _) = parse_vbib_block(&bytes).unwrap();
    let field = vertex[0].field("POSITION", 0).unwrap();
    let decoded = decode_positions(&vertex[0], field).unwrap();
    assert_eq!(as_floats(&decoded), positions);
    assert!(vertex[0].compression.meshopt);
    assert!(vertex[0].compression.meshopt_header.is_some());
}

#[test]
fn vertex_buffer_zstd_plus_meshopt_compressed_roundtrips() {
    let positions = vec![[1.0, 2.0, 3.0]; 20];
    let meshopt_bytes = meshopt::encode_vertex_buffer(&positions).unwrap();
    let stored = zstd_compress(&meshopt_bytes);

    let bytes = build_vbib(
        &[BufferSpec {
            element_count: positions.len() as u32,
            element_size: 12,
            meshopt: true,
            zstd: true,
            fields: vec![position_field()],
            stored,
        }],
        &[],
    );

    let (vertex, _) = parse_vbib_block(&bytes).unwrap();
    let field = vertex[0].field("POSITION", 0).unwrap();
    let decoded = decode_positions(&vertex[0], field).unwrap();
    assert_eq!(as_floats(&decoded), positions);
    assert!(vertex[0].compression.zstd);
}

#[test]
fn index_buffer_meshopt_compressed_roundtrips() {
    let indices: Vec<u32> = vec![0, 1, 2, 2, 1, 3, 3, 1, 4];
    let compressed = meshopt::encode_index_buffer(&indices, 5).unwrap();

    let bytes = build_vbib(
        &[],
        &[BufferSpec {
            element_count: indices.len() as u32,
            element_size: 4,
            meshopt: true,
            zstd: false,
            fields: vec![],
            stored: compressed,
        }],
    );

    let (_, index) = parse_vbib_block(&bytes).unwrap();
    assert_eq!(index.len(), 1);
    let decoded: Vec<u32> = (0..indices.len())
        .map(|i| index[0].index_at(i).unwrap())
        .collect();
    assert_eq!(decoded, indices);
}

#[test]
fn index_buffer_meshopt_of_shorts_roundtrips() {
    let indices: Vec<u32> = (0..300).map(|i| (i * 7) % 100).collect();
    let compressed = meshopt::encode_index_buffer(&indices, 100).unwrap();
    assert!(compressed.len() < 600);
    let bytes = build_vbib(
        &[],
        &[BufferSpec {
            element_count: indices.len() as u32,
            element_size: 2,
            meshopt: true,
            zstd: false,
            fields: vec![],
            stored: compressed.clone(),
        }],
    );
    let (_, index) = parse_vbib_block(&bytes).unwrap();
    // The coder may turn a triangle, and keeps the triangles in their order.
    let mut want = meshopt::decode_index_buffer::<u32>(&compressed, indices.len()).unwrap();
    let mut got: Vec<u32> = (0..indices.len())
        .map(|i| index[0].index_at(i).unwrap())
        .collect();
    assert_eq!(got, want);
    for triangle in want.chunks_mut(3) {
        triangle.sort();
    }
    for triangle in got.chunks_mut(3) {
        triangle.sort();
    }
    assert_eq!(got, want);
    assert_eq!(index[0].data.len(), 600);
    assert!(index[0].index_at(indices.len()).is_none());
}

#[test]
fn index_buffer_zstd_only_roundtrips() {
    // Long and repetitive enough for the frame to be the shorter of the two.
    let indices: Vec<u16> = (0..300u16).map(|i| i % 4).collect();
    let raw: Vec<u8> = indices.iter().flat_map(|v| v.to_le_bytes()).collect();
    let stored = zstd_compress(&raw);
    assert!(stored.len() < raw.len(), "the frame has to shrink the data");

    let bytes = build_vbib(
        &[],
        &[BufferSpec {
            element_count: indices.len() as u32,
            element_size: 2,
            meshopt: false,
            zstd: true,
            fields: vec![],
            stored,
        }],
    );

    let (_, index) = parse_vbib_block(&bytes).unwrap();
    let decoded: Vec<u32> = (0..indices.len())
        .map(|i| index[0].index_at(i).unwrap())
        .collect();
    assert_eq!(
        decoded,
        indices.iter().map(|&v| u32::from(v)).collect::<Vec<_>>()
    );
}

#[test]
fn corrupt_meshopt_payload_errors_not_panics() {
    let bytes = build_vbib(
        &[BufferSpec {
            element_count: 4,
            element_size: 12,
            meshopt: true,
            zstd: false,
            fields: vec![position_field()],
            stored: vec![0xFFu8; 3],
        }],
        &[],
    );

    let result = parse_vbib_block(&bytes);
    assert!(
        result.is_err(),
        "corrupt meshopt payload must error, not panic"
    );
}

#[test]
fn meshopt_vertex_stride_6_not_multiple_of_4_errors_not_panics() {
    let bytes = build_vbib(
        &[BufferSpec {
            element_count: 4,
            element_size: 6,
            meshopt: true,
            zstd: false,
            fields: vec![],
            stored: vec![0u8; 4],
        }],
        &[],
    );
    let error = parse_vbib_block(&bytes).unwrap_err();
    assert!(matches!(
        error,
        MeshError::MeshoptLayout { element_count: 4, element_size: 6, .. }
    ));
}

#[test]
fn meshopt_vertex_stride_300_exceeds_256_errors_not_panics() {
    let bytes = build_vbib(
        &[BufferSpec {
            element_count: 1,
            element_size: 300,
            meshopt: true,
            zstd: false,
            fields: vec![],
            stored: vec![0u8; 10],
        }],
        &[],
    );
    assert!(parse_vbib_block(&bytes).is_err());
}

#[test]
fn meshopt_index_count_4_not_multiple_of_3_errors_not_panics() {
    let bytes = build_vbib(
        &[],
        &[BufferSpec {
            element_count: 4,
            element_size: 2,
            meshopt: true,
            zstd: false,
            fields: vec![],
            stored: vec![0u8; 3],
        }],
    );
    assert!(parse_vbib_block(&bytes).is_err());
}

#[test]
fn meshopt_index_element_size_3_errors_not_panics() {
    let bytes = build_vbib(
        &[],
        &[BufferSpec {
            element_count: 6,
            element_size: 3,
            meshopt: true,
            zstd: false,
            fields: vec![],
            stored: vec![0u8; 3],
        }],
    );
    assert!(parse_vbib_block(&bytes).is_err());
}

#[test]
fn a_damaged_frame_is_told_apart_from_a_short_one() {
    let spec = |stored: Vec<u8>, element_count: u32| {
        build_vbib(
            &[],
            &[BufferSpec {
                element_count,
                element_size: 2,
                meshopt: false,
                zstd: true,
                fields: vec![],
                stored,
            }],
        )
    };
    let damaged = parse_vbib_block(&spec(vec![1, 2, 3, 4, 5], 300)).unwrap_err();
    assert!(matches!(damaged, MeshError::Zstd { .. }), "{damaged:?}");

    let raw = vec![7u8; 400];
    let short = parse_vbib_block(&spec(zstd_compress(&raw), 300)).unwrap_err();
    assert!(
        matches!(short, MeshError::LengthMismatch { actual: 400, expected: 600, .. }),
        "{short:?}"
    );
}

#[test]
fn a_block_that_ends_early_is_truncated() {
    let error = parse_vbib_block(&[0u8; 7]).unwrap_err();
    assert!(matches!(error, MeshError::Truncated { .. }), "{error:?}");
    assert!(!error.message().is_empty());
}

#[test]
fn a_size_over_the_limit_is_refused_before_anything_is_reserved() {
    let bytes = build_vbib(
        &[BufferSpec {
            element_count: u32::MAX,
            element_size: 256,
            meshopt: false,
            zstd: false,
            fields: vec![],
            stored: vec![0u8; 4],
        }],
        &[],
    );
    let error = parse_vbib_block(&bytes).unwrap_err();
    assert!(
        matches!(error, MeshError::SizeTooLarge { size: 256, .. }),
        "{error:?}"
    );
}
