//! The outside codecs: zstd frames, meshoptimizer streams and SHA-256 digests. Each is one call;
//! everything around the calls is in the modules that use them.

use vstd::prelude::*;

verus! {

/// `S` bytes of vertex data.
#[derive(Clone, Copy)]
pub struct Block<const S: usize>(pub [u8; S]);

impl<const S: usize> Default for Block<S> {
    fn default() -> (r: Self)
        ensures
            forall|i: int| 0 <= i < S ==> r.0@[i] == 0,
    {
        Block([0u8; S])
    }
}

/// What a fallible decoder gave back, as plain sequences.
pub open spec fn decoded<T>(r: Result<Vec<T>, String>) -> Result<Seq<T>, Seq<char>> {
    match r {
        Ok(v) => Ok(v@),
        Err(e) => Err(e@),
    }
}

/// What decoding the zstd frames in `input` into `room` bytes gives: the bytes, or the decoder's
/// message.
pub uninterp spec fn zstd_frames(input: Seq<u8>, room: nat) -> Result<Seq<u8>, Seq<char>>;

/// `ruzstd::decoding::FrameDecoder::decode_all`, into a slice of `room` bytes. What comes out
/// depends on `input` and `room` alone, and never takes more than `room` bytes: a frame that holds
/// more is an error. What the bytes are is left to the name.
#[verifier::external_body]
pub(crate) fn zstd_decode(input: &[u8], room: usize) -> (r: Result<Vec<u8>, String>)
    requires
        room <= isize::MAX,
    ensures
        decoded(r) == zstd_frames(input@, room as nat),
        r matches Ok(v) ==> v@.len() <= room,
{
    let mut out = vec![0u8; room];
    match ruzstd::decoding::FrameDecoder::new().decode_all(input, &mut out) {
        Ok(n) => {
            out.truncate(n);
            Ok(out)
        },
        Err(e) => Err(e.to_string()),
    }
}

/// What the meshoptimizer index stream `data` decodes to, as `count` 16-bit indices.
pub uninterp spec fn index_stream16(data: Seq<u8>, count: nat) -> Result<Seq<u16>, Seq<char>>;

/// `meshopt::decode_index_buffer` with 16-bit indices. A stream that decodes gives exactly `count`
/// indices; which ones, and which streams are refused with what message, is left to the name.
#[verifier::external_body]
pub(crate) fn decode_index16(data: &[u8], count: usize) -> (r: Result<Vec<u16>, String>)
    requires
        count % 3 == 0,
        2 * count <= isize::MAX,
    ensures
        decoded(r) == index_stream16(data@, count as nat),
        r matches Ok(v) ==> v@.len() == count,
{
    meshopt::decode_index_buffer::<u16>(data, count).map_err(|e| e.to_string())
}

/// What the meshoptimizer index stream `data` decodes to, as `count` 32-bit indices.
pub uninterp spec fn index_stream32(data: Seq<u8>, count: nat) -> Result<Seq<u32>, Seq<char>>;

/// `meshopt::decode_index_buffer` with 32-bit indices. A stream that decodes gives exactly `count`
/// indices; which ones, and which streams are refused with what message, is left to the name.
#[verifier::external_body]
pub(crate) fn decode_index32(data: &[u8], count: usize) -> (r: Result<Vec<u32>, String>)
    requires
        count % 3 == 0,
        4 * count <= isize::MAX,
    ensures
        decoded(r) == index_stream32(data@, count as nat),
        r matches Ok(v) ==> v@.len() == count,
{
    meshopt::decode_index_buffer::<u32>(data, count).map_err(|e| e.to_string())
}

/// What the meshoptimizer vertex stream `data` decodes to: `count` vertices of `stride` bytes each,
/// one after the other, or nothing where the decoder refuses it.
pub uninterp spec fn vertex_stream(data: Seq<u8>, count: nat, stride: nat) -> Option<Seq<u8>>;

/// What a vertex decoder gave back, as plain values and without its code.
pub open spec fn decoded_vertices(r: Result<Vec<u8>, i32>) -> Option<Seq<u8>> {
    match r {
        Ok(v) => Some(v@),
        Err(_) => None,
    }
}

/// `meshopt::decode_vertex_buffer` with vertices of `S` bytes. A stream that decodes gives exactly
/// `count` vertices, here as one run of bytes; which bytes, and which streams are refused, is left
/// to the name. Of the code of a refusal it is only claimed that it is not zero: which code a
/// stream gets depends on the instructions that the machine has. The crate reports refusals of this
/// call by their code alone.
#[verifier::external_body]
fn decode_blocks<const S: usize>(data: &[u8], count: usize) -> (r: Result<Vec<u8>, i32>)
    requires
        0 < S <= 256,
        S % 4 == 0,
        count * S <= isize::MAX,
    ensures
        decoded_vertices(r) == vertex_stream(data@, count as nat, S as nat),
        r matches Ok(v) ==> v@.len() == count * S,
        r matches Err(code) ==> code != 0,
{
    match meshopt::decode_vertex_buffer::<Block<S>>(data, count) {
        Ok(v) => Ok(v.iter().flat_map(|b| b.0).collect()),
        Err(meshopt::Error::Native(code)) => Err(code),
        Err(_) => Err(-1),
    }
}

/// What meshoptimizer encodes `count` vertices of `stride` bytes to, at a compression level and
/// stream version.
pub uninterp spec fn encoded_vertices(
    raw: Seq<u8>,
    count: nat,
    stride: nat,
    level: i32,
    version: i32,
) -> Seq<u8>;

/// Decoding `stream` as vertices of `stride` bytes gives `raw`.
pub open spec fn reads_back(stream: Seq<u8>, raw: Seq<u8>, stride: nat) -> bool {
    vertex_stream(stream, raw.len() / stride, stride) == Some(raw)
}

/// `meshopt::encode_vertex_buffer_level` with vertices of `S` bytes. Decoding the stream gives the
/// vertices back; which bytes the stream holds is left to the name.
#[verifier::external_body]
fn encode_blocks<const S: usize>(raw: &[u8], level: i32, version: i32) -> (r: Vec<u8>)
    requires
        0 < S <= 256,
        S % 4 == 0,
        raw@.len() % (S as nat) == 0,
        raw@.len() <= isize::MAX / 4,
        0 <= level <= 3,
        0 <= version <= 1,
    ensures
        r@ == encoded_vertices(raw@, raw@.len() / (S as nat), S as nat, level, version),
        reads_back(r@, raw@, S as nat),
{
    let blocks: Vec<[u8; S]> = raw.chunks_exact(S).map(|c| c.try_into().unwrap()).collect();
    meshopt::encode_vertex_buffer_level(&blocks, level, Some(version)).unwrap()
}

/// Whether meshoptimizer can hold vertices of `stride` bytes.
pub open spec fn valid_stride(stride: int) -> bool {
    0 < stride <= 256 && stride % 4 == 0
}

/// Decodes a vertex stream whose stride is known only at run time.
pub(crate) fn decode_vertices(data: &[u8], count: usize, stride: usize) -> (r: Result<Vec<u8>, i32>)
    requires
        valid_stride(stride as int),
        count * stride <= isize::MAX,
    ensures
        decoded_vertices(r) == vertex_stream(data@, count as nat, stride as nat),
        r matches Ok(v) ==> v@.len() == count * stride,
        r matches Err(code) ==> code != 0,
{
    match stride {
        4 => decode_blocks::<4>(data, count),
        8 => decode_blocks::<8>(data, count),
        12 => decode_blocks::<12>(data, count),
        16 => decode_blocks::<16>(data, count),
        20 => decode_blocks::<20>(data, count),
        24 => decode_blocks::<24>(data, count),
        28 => decode_blocks::<28>(data, count),
        32 => decode_blocks::<32>(data, count),
        36 => decode_blocks::<36>(data, count),
        40 => decode_blocks::<40>(data, count),
        44 => decode_blocks::<44>(data, count),
        48 => decode_blocks::<48>(data, count),
        52 => decode_blocks::<52>(data, count),
        56 => decode_blocks::<56>(data, count),
        60 => decode_blocks::<60>(data, count),
        64 => decode_blocks::<64>(data, count),
        68 => decode_blocks::<68>(data, count),
        72 => decode_blocks::<72>(data, count),
        76 => decode_blocks::<76>(data, count),
        80 => decode_blocks::<80>(data, count),
        84 => decode_blocks::<84>(data, count),
        88 => decode_blocks::<88>(data, count),
        92 => decode_blocks::<92>(data, count),
        96 => decode_blocks::<96>(data, count),
        100 => decode_blocks::<100>(data, count),
        104 => decode_blocks::<104>(data, count),
        108 => decode_blocks::<108>(data, count),
        112 => decode_blocks::<112>(data, count),
        116 => decode_blocks::<116>(data, count),
        120 => decode_blocks::<120>(data, count),
        124 => decode_blocks::<124>(data, count),
        128 => decode_blocks::<128>(data, count),
        132 => decode_blocks::<132>(data, count),
        136 => decode_blocks::<136>(data, count),
        140 => decode_blocks::<140>(data, count),
        144 => decode_blocks::<144>(data, count),
        148 => decode_blocks::<148>(data, count),
        152 => decode_blocks::<152>(data, count),
        156 => decode_blocks::<156>(data, count),
        160 => decode_blocks::<160>(data, count),
        164 => decode_blocks::<164>(data, count),
        168 => decode_blocks::<168>(data, count),
        172 => decode_blocks::<172>(data, count),
        176 => decode_blocks::<176>(data, count),
        180 => decode_blocks::<180>(data, count),
        184 => decode_blocks::<184>(data, count),
        188 => decode_blocks::<188>(data, count),
        192 => decode_blocks::<192>(data, count),
        196 => decode_blocks::<196>(data, count),
        200 => decode_blocks::<200>(data, count),
        204 => decode_blocks::<204>(data, count),
        208 => decode_blocks::<208>(data, count),
        212 => decode_blocks::<212>(data, count),
        216 => decode_blocks::<216>(data, count),
        220 => decode_blocks::<220>(data, count),
        224 => decode_blocks::<224>(data, count),
        228 => decode_blocks::<228>(data, count),
        232 => decode_blocks::<232>(data, count),
        236 => decode_blocks::<236>(data, count),
        240 => decode_blocks::<240>(data, count),
        244 => decode_blocks::<244>(data, count),
        248 => decode_blocks::<248>(data, count),
        252 => decode_blocks::<252>(data, count),
        256 => decode_blocks::<256>(data, count),
        _ => {
            assert(false);
            Err(0)
        },
    }
}

/// Encodes vertices whose stride is known only at run time.
pub(crate) fn encode_vertices(raw: &[u8], stride: usize, level: i32, version: i32) -> (r: Vec<u8>)
    requires
        valid_stride(stride as int),
        raw@.len() % (stride as nat) == 0,
        raw@.len() <= isize::MAX / 4,
        0 <= level <= 3,
        0 <= version <= 1,
    ensures
        r@ == encoded_vertices(raw@, raw@.len() / (stride as nat), stride as nat, level, version),
        reads_back(r@, raw@, stride as nat),
{
    match stride {
        4 => encode_blocks::<4>(raw, level, version),
        8 => encode_blocks::<8>(raw, level, version),
        12 => encode_blocks::<12>(raw, level, version),
        16 => encode_blocks::<16>(raw, level, version),
        20 => encode_blocks::<20>(raw, level, version),
        24 => encode_blocks::<24>(raw, level, version),
        28 => encode_blocks::<28>(raw, level, version),
        32 => encode_blocks::<32>(raw, level, version),
        36 => encode_blocks::<36>(raw, level, version),
        40 => encode_blocks::<40>(raw, level, version),
        44 => encode_blocks::<44>(raw, level, version),
        48 => encode_blocks::<48>(raw, level, version),
        52 => encode_blocks::<52>(raw, level, version),
        56 => encode_blocks::<56>(raw, level, version),
        60 => encode_blocks::<60>(raw, level, version),
        64 => encode_blocks::<64>(raw, level, version),
        68 => encode_blocks::<68>(raw, level, version),
        72 => encode_blocks::<72>(raw, level, version),
        76 => encode_blocks::<76>(raw, level, version),
        80 => encode_blocks::<80>(raw, level, version),
        84 => encode_blocks::<84>(raw, level, version),
        88 => encode_blocks::<88>(raw, level, version),
        92 => encode_blocks::<92>(raw, level, version),
        96 => encode_blocks::<96>(raw, level, version),
        100 => encode_blocks::<100>(raw, level, version),
        104 => encode_blocks::<104>(raw, level, version),
        108 => encode_blocks::<108>(raw, level, version),
        112 => encode_blocks::<112>(raw, level, version),
        116 => encode_blocks::<116>(raw, level, version),
        120 => encode_blocks::<120>(raw, level, version),
        124 => encode_blocks::<124>(raw, level, version),
        128 => encode_blocks::<128>(raw, level, version),
        132 => encode_blocks::<132>(raw, level, version),
        136 => encode_blocks::<136>(raw, level, version),
        140 => encode_blocks::<140>(raw, level, version),
        144 => encode_blocks::<144>(raw, level, version),
        148 => encode_blocks::<148>(raw, level, version),
        152 => encode_blocks::<152>(raw, level, version),
        156 => encode_blocks::<156>(raw, level, version),
        160 => encode_blocks::<160>(raw, level, version),
        164 => encode_blocks::<164>(raw, level, version),
        168 => encode_blocks::<168>(raw, level, version),
        172 => encode_blocks::<172>(raw, level, version),
        176 => encode_blocks::<176>(raw, level, version),
        180 => encode_blocks::<180>(raw, level, version),
        184 => encode_blocks::<184>(raw, level, version),
        188 => encode_blocks::<188>(raw, level, version),
        192 => encode_blocks::<192>(raw, level, version),
        196 => encode_blocks::<196>(raw, level, version),
        200 => encode_blocks::<200>(raw, level, version),
        204 => encode_blocks::<204>(raw, level, version),
        208 => encode_blocks::<208>(raw, level, version),
        212 => encode_blocks::<212>(raw, level, version),
        216 => encode_blocks::<216>(raw, level, version),
        220 => encode_blocks::<220>(raw, level, version),
        224 => encode_blocks::<224>(raw, level, version),
        228 => encode_blocks::<228>(raw, level, version),
        232 => encode_blocks::<232>(raw, level, version),
        236 => encode_blocks::<236>(raw, level, version),
        240 => encode_blocks::<240>(raw, level, version),
        244 => encode_blocks::<244>(raw, level, version),
        248 => encode_blocks::<248>(raw, level, version),
        252 => encode_blocks::<252>(raw, level, version),
        256 => encode_blocks::<256>(raw, level, version),
        _ => {
            assert(false);
            Vec::new()
        },
    }
}

/// What meshoptimizer encodes a triangle list to.
pub uninterp spec fn encoded_indices(indices: Seq<u32>, vertex_count: nat) -> Seq<u8>;

/// Whether the triangle `t` of two lists is the same, whichever of its corners comes first: the
/// order of the corners around it is kept.
pub open spec fn same_triangle(a: Seq<u32>, b: Seq<u32>, t: int) -> bool {
    let (x, y, z) = (b[3 * t], b[3 * t + 1], b[3 * t + 2]);
    ||| (x, y, z) == (a[3 * t], a[3 * t + 1], a[3 * t + 2])
    ||| (x, y, z) == (a[3 * t + 1], a[3 * t + 2], a[3 * t])
    ||| (x, y, z) == (a[3 * t + 2], a[3 * t], a[3 * t + 1])
}

/// Whether two lists hold the same triangles in the same order.
pub open spec fn same_triangles(a: Seq<u32>, b: Seq<u32>) -> bool {
    b.len() == a.len() && forall|t: int|
        0 <= t < a.len() as int / 3 ==> #[trigger] same_triangle(a, b, t)
}

/// Indices of sixteen bits as wider ones.
pub open spec fn widened(v: Seq<u16>) -> Seq<u32> {
    Seq::new(v.len(), |i: int| v[i] as u32)
}

/// Decoding `stream` gives the triangles of `indices`; as 16-bit indices too, where they fit.
pub open spec fn triangles_read_back(stream: Seq<u8>, indices: Seq<u32>) -> bool {
    &&& index_stream32(stream, indices.len()) matches Ok(v) && same_triangles(indices, v)
    &&& (forall|i: int| 0 <= i < indices.len() ==> #[trigger] indices[i] <= u16::MAX) ==> (
    index_stream16(stream, indices.len()) matches Ok(v) && same_triangles(indices, widened(v)))
}

/// Whether every index is below the one that the encoder keeps for itself.
pub open spec fn are_plain(indices: Seq<u32>) -> bool {
    forall|i: int| 0 <= i < indices.len() ==> #[trigger] indices[i] < u32::MAX
}

/// `meshopt::encode_index_buffer`, at the stream version that the crate starts with (only an
/// unsafe setter changes it). Decoding the stream gives the triangles back in their order; the
/// encoder may turn a triangle so that another of its corners comes first. Nothing is said of
/// indices of all ones, which the encoder also uses to mark empty places of its tables. Which bytes
/// the stream holds is left to the name.
#[verifier::external_body]
pub(crate) fn encode_indices(indices: &[u32], vertex_count: usize) -> (r: Vec<u8>)
    requires
        indices@.len() % 3 == 0,
        indices@.len() <= isize::MAX / 8,
        forall|i: int| 0 <= i < indices@.len() ==> indices@[i] < vertex_count,
    ensures
        r@ == encoded_indices(indices@, vertex_count as nat),
        are_plain(indices@) ==> triangles_read_back(r@, indices@),
{
    meshopt::encode_index_buffer(indices, vertex_count).unwrap()
}

/// The SHA-256 digest of `data`.
pub uninterp spec fn sha256_of(data: Seq<u8>) -> Seq<u8>;

/// `sha2::Sha256::digest`: 32 bytes that depend on `data` alone.
#[verifier::external_body]
pub(crate) fn sha256(data: &[u8]) -> (r: [u8; 32])
    ensures
        r@ == sha256_of(data@),
{
    <sha2::Sha256 as sha2::Digest>::digest(data).into()
}

} // verus!
