//! A glTF document with one binary chunk: attribute and index streams are compressed, and every
//! stream starts on a multiple of four.
//!
//! Geometry keeps the game's units and axes.

use crate::bits::{clamp_unit, f32_le, F32_ONE, F32_ZERO};
use crate::bytes::{flatten16, flatten32, push32, push_all};
use crate::codec::{encode_indices, encode_vertices};
use crate::json::{add_item, array, Json, Members};
use crate::world::Transform;
use vstd::prelude::*;

verus! {

/// A chunk or the whole file is longer than its length field can say.
#[derive(Debug, Clone, Copy, PartialEq, Eq, Structural)]
pub struct GlbTooLarge {
    pub bytes: usize,
}

/// The message of a file that is too large.
pub open spec fn too_large_text(e: GlbTooLarge) -> Seq<char> {
    "GLB output exceeds the 4 GiB glTF binary chunk-length limit: "@ + crate::error::num(
        e.bytes as int,
    ) + " bytes"@
}

impl GlbTooLarge {
    /// The message.
    pub fn message(&self) -> (r: String)
        ensures
            r@ == too_large_text(*self),
    {
        let mut r: String =
            "GLB output exceeds the 4 GiB glTF binary chunk-length limit: ".to_owned();
        r.append(crate::text::decimal(self.bytes as u64).as_str());
        r.append(" bytes");
        r
    }
}

/// How many bytes are missing to the next multiple of four.
pub open spec fn gap(len: int) -> int {
    (4 - len % 4) % 4
}

/// `s` filled up to a multiple of four.
pub open spec fn padded(s: Seq<u8>, fill: u8) -> Seq<u8> {
    s + Seq::new(gap(s.len() as int) as nat, |i: int| fill)
}

/// Fills a buffer up to a multiple of four.
pub fn pad4(buf: &mut Vec<u8>, pad_byte: u8)
    ensures
        final(buf)@ == padded(old(buf)@, pad_byte),
        final(buf)@.len() % 4 == 0,
{
    let ghost start = buf@;
    let ghost mut n: int = 0;
    assert(buf@ =~= start + Seq::new(0, |i: int| pad_byte));
    while buf.len() % 4 != 0
        invariant
            0 <= n <= gap(start.len() as int),
            buf@.len() == start.len() + n,
            buf@ == start + Seq::new(n as nat, |i: int| pad_byte),
        decreases gap(start.len() as int) - n,
    {
        assert(n < gap(start.len() as int));
        buf.push(pad_byte);
        proof {
            n = n + 1;
            assert(buf@ =~= start + Seq::new(n as nat, |i: int| pad_byte));
        }
    }
    assert(n == gap(start.len() as int));
}

/// The bytes `glTF`.
pub open spec fn magic() -> Seq<u8> {
    seq![0x67u8, 0x6Cu8, 0x54u8, 0x46u8]
}

/// The bytes `JSON`.
pub open spec fn json_tag() -> Seq<u8> {
    seq![0x4Au8, 0x53u8, 0x4Fu8, 0x4Eu8]
}

/// The bytes `BIN` and a zero.
pub open spec fn bin_tag() -> Seq<u8> {
    seq![0x42u8, 0x49u8, 0x4Eu8, 0u8]
}

/// The length of the whole file.
pub open spec fn glb_len(json: Seq<u8>, bin: Seq<u8>) -> int {
    (12 + 8 + padded(json, 0x20).len() + 8 + padded(bin, 0).len()) as int
}

/// The file: a header, a chunk with the document, and a chunk with the binary data. The document
/// is filled up with spaces, the binary data with zeros.
pub open spec fn glb_bytes(json: Seq<u8>, bin: Seq<u8>) -> Seq<u8> {
    magic() + crate::bytes::bytes32(2) + crate::bytes::bytes32(glb_len(json, bin))
        + crate::bytes::bytes32(padded(json, 0x20).len() as int) + json_tag() + padded(json, 0x20)
        + crate::bytes::bytes32(padded(bin, 0).len() as int) + bin_tag() + padded(bin, 0)
}

/// The first length that does not fit its field: of the document, of the binary data, of the file.
pub open spec fn too_large(json: Seq<u8>, bin: Seq<u8>) -> Option<int> {
    if padded(json, 0x20).len() > u32::MAX {
        Some(padded(json, 0x20).len() as int)
    } else if padded(bin, 0).len() > u32::MAX {
        Some(padded(bin, 0).len() as int)
    } else if glb_len(json, bin) > u32::MAX {
        Some(glb_len(json, bin))
    } else {
        None
    }
}

/// Appends four bytes.
fn push_tag(out: &mut Vec<u8>, a: u8, b: u8, c: u8, d: u8)
    ensures
        final(out)@ == old(out)@ + seq![a, b, c, d],
{
    let tag: [u8; 4] = [a, b, c, d];
    assert(tag@ =~= seq![a, b, c, d]);
    push_all(out, tag.as_slice());
}

/// Puts the file together from the document's bytes and the binary data.
pub fn frame(json: Vec<u8>, bin: Vec<u8>) -> (r: Result<Vec<u8>, GlbTooLarge>)
    requires
        glb_len(json@, bin@) <= usize::MAX,
    ensures
        match r {
            Ok(out) => too_large(json@, bin@) is None && out@ == glb_bytes(json@, bin@),
            Err(e) => too_large(json@, bin@) == Some(e.bytes as int),
        },
{
    let ghost j = json@;
    let ghost b = bin@;
    let mut json: Vec<u8> = json;
    let mut bin: Vec<u8> = bin;
    pad4(&mut json, 0x20);
    pad4(&mut bin, 0);
    let total: usize = 28 + json.len() + bin.len();
    if json.len() as u64 > u32::MAX as u64 {
        return Err(GlbTooLarge { bytes: json.len() });
    }
    if bin.len() as u64 > u32::MAX as u64 {
        return Err(GlbTooLarge { bytes: bin.len() });
    }
    if total as u64 > u32::MAX as u64 {
        return Err(GlbTooLarge { bytes: total });
    }
    let mut out: Vec<u8> = Vec::new();
    push_tag(&mut out, 0x67, 0x6C, 0x54, 0x46);
    assert(out@ =~= magic());
    push32(&mut out, 2);
    push32(&mut out, total as u32);
    push32(&mut out, json.len() as u32);
    push_tag(&mut out, 0x4A, 0x53, 0x4F, 0x4E);
    push_all(&mut out, json.as_slice());
    push32(&mut out, bin.len() as u32);
    push_tag(&mut out, 0x42, 0x49, 0x4E, 0);
    push_all(&mut out, bin.as_slice());
    Ok(out)
}

/// Whether a file holds a document and binary data, each where and as long as its lengths say, and
/// all on multiples of four.
pub open spec fn takes_apart(file: Seq<u8>, json: Seq<u8>, bin: Seq<u8>) -> bool {
    let json_len = crate::bytes::le32(file, 12);
    let bin_len = crate::bytes::le32(file, 20 + json_len);
    &&& file.subrange(0, 4) == magic()
    &&& crate::bytes::le32(file, 4) == 2
    &&& crate::bytes::le32(file, 8) == file.len()
    &&& file.len() == 20 + json_len + 8 + bin_len
    &&& json_len >= json.len() && json_len % 4 == 0
    &&& file.subrange(16, 20) == json_tag()
    &&& file.subrange(20, 20 + json_len).take(json.len() as int) == json
    &&& bin_len >= bin.len() && bin_len % 4 == 0
    &&& file.subrange(20 + json_len + 4, 20 + json_len + 8) == bin_tag()
    &&& file.subrange(20 + json_len + 8, 20 + json_len + 8 + bin_len).take(bin.len() as int) == bin
}

/// A file that was put together can be taken apart again: the header names the format, the version
/// and the whole length, the first chunk holds the document, and the second the binary data.
pub proof fn glb_takes_apart(json: Seq<u8>, bin: Seq<u8>)
    requires
        too_large(json, bin) is None,
    ensures
        takes_apart(glb_bytes(json, bin), json, bin),
{
    let j = padded(json, 0x20);
    let b = padded(bin, 0);
    lemma_padded(json, 0x20);
    lemma_padded(bin, 0);
    lemma_layout(glb_len(json, bin), j, b);
    lemma_takes_apart(glb_bytes(json, bin), json, bin, j, b);
}

/// A file with its parts in place can be taken apart.
proof fn lemma_takes_apart(file: Seq<u8>, json: Seq<u8>, bin: Seq<u8>, j: Seq<u8>, b: Seq<u8>)
    requires
        json.len() <= j.len(),
        bin.len() <= b.len(),
        j.take(json.len() as int) == json,
        b.take(bin.len() as int) == bin,
        j.len() % 4 == 0,
        b.len() % 4 == 0,
        file.len() == 28 + j.len() + b.len(),
        file.len() <= u32::MAX,
        file.subrange(0, 4) == magic(),
        file.subrange(4, 8) == crate::bytes::bytes32(2),
        file.subrange(8, 12) == crate::bytes::bytes32(file.len() as int),
        file.subrange(12, 16) == crate::bytes::bytes32(j.len() as int),
        file.subrange(16, 20) == json_tag(),
        file.subrange(20, 20 + j.len() as int) == j,
        file.subrange(20 + j.len() as int, 24 + j.len() as int) == crate::bytes::bytes32(
            b.len() as int,
        ),
        file.subrange(24 + j.len() as int, 28 + j.len() as int) == bin_tag(),
        file.subrange(28 + j.len() as int, 28 + j.len() as int + b.len() as int) == b,
    ensures
        takes_apart(file, json, bin),
{
    lemma_le32_at(file, 4, 2);
    lemma_le32_at(file, 8, file.len() as int);
    lemma_le32_at(file, 12, j.len() as int);
    lemma_le32_at(file, 20 + j.len() as int, b.len() as int);
}

/// What padding keeps and makes.
proof fn lemma_padded(s: Seq<u8>, fill: u8)
    ensures
        padded(s, fill).take(s.len() as int) == s,
        padded(s, fill).len() % 4 == 0,
{
    assert(padded(s, fill).take(s.len() as int) =~= s);
}

/// What follows does not change what stands before it.
proof fn lemma_before(x: Seq<u8>, y: Seq<u8>, from: int, to: int)
    requires
        0 <= from <= to <= x.len(),
    ensures
        (x + y).subrange(from, to) == x.subrange(from, to),
{
    assert((x + y).subrange(from, to) =~= x.subrange(from, to));
}

/// What is put last stands last.
proof fn lemma_last(x: Seq<u8>, y: Seq<u8>)
    ensures
        (x + y).subrange(x.len() as int, (x.len() + y.len()) as int) == y,
{
    assert((x + y).subrange(x.len() as int, (x.len() + y.len()) as int) =~= y);
}

/// Where the parts of a file stand.
proof fn lemma_layout(total: int, j: Seq<u8>, b: Seq<u8>)
    ensures
        ({
            let file = magic() + crate::bytes::bytes32(2) + crate::bytes::bytes32(total)
                + crate::bytes::bytes32(j.len() as int) + json_tag() + j + crate::bytes::bytes32(
                b.len() as int,
            ) + bin_tag() + b;
            let at = 20 + j.len() as int;
            &&& file.len() == at + 8 + b.len()
            &&& file.subrange(0, 4) == magic()
            &&& file.subrange(4, 8) == crate::bytes::bytes32(2)
            &&& file.subrange(8, 12) == crate::bytes::bytes32(total)
            &&& file.subrange(12, 16) == crate::bytes::bytes32(j.len() as int)
            &&& file.subrange(16, 20) == json_tag()
            &&& file.subrange(20, at) == j
            &&& file.subrange(at, at + 4) == crate::bytes::bytes32(b.len() as int)
            &&& file.subrange(at + 4, at + 8) == bin_tag()
            &&& file.subrange(at + 8, at + 8 + b.len()) == b
        }),
{
    let at = 20 + j.len() as int;
    let p1 = magic();
    let p2 = p1 + crate::bytes::bytes32(2);
    let p3 = p2 + crate::bytes::bytes32(total);
    let p4 = p3 + crate::bytes::bytes32(j.len() as int);
    let p5 = p4 + json_tag();
    let p6 = p5 + j;
    let p7 = p6 + crate::bytes::bytes32(b.len() as int);
    let p8 = p7 + bin_tag();
    let p9 = p8 + b;
    assert(p9.subrange(at + 8, at + 8 + b.len()) == b) by {
        lemma_last(p8, b);
    }
    lemma_last(p7, bin_tag());
    lemma_before(p8, b, at + 4, at + 8);
    lemma_last(p6, crate::bytes::bytes32(b.len() as int));
    lemma_before(p7, bin_tag(), at, at + 4);
    lemma_before(p8, b, at, at + 4);
    lemma_last(p5, j);
    lemma_before(p6, crate::bytes::bytes32(b.len() as int), 20, at);
    lemma_before(p7, bin_tag(), 20, at);
    lemma_before(p8, b, 20, at);
    assert(p9.subrange(0, 20) == p5) by {
        lemma_before(p5, j, 0, 20);
        lemma_before(p6, crate::bytes::bytes32(b.len() as int), 0, 20);
        lemma_before(p7, bin_tag(), 0, 20);
        lemma_before(p8, b, 0, 20);
        assert(p5.subrange(0, 20) =~= p5);
    }
    lemma_before_in(p9, 20, 0, 4);
    lemma_before_in(p9, 20, 4, 8);
    lemma_before_in(p9, 20, 8, 12);
    lemma_before_in(p9, 20, 12, 16);
    lemma_before_in(p9, 20, 16, 20);
    assert(p5.subrange(0, 4) =~= magic());
    assert(p5.subrange(4, 8) =~= crate::bytes::bytes32(2));
    assert(p5.subrange(8, 12) =~= crate::bytes::bytes32(total));
    assert(p5.subrange(12, 16) =~= crate::bytes::bytes32(j.len() as int));
    assert(p5.subrange(16, 20) =~= json_tag());
}

/// A part of the beginning is a part of the whole.
proof fn lemma_before_in(s: Seq<u8>, n: int, from: int, to: int)
    requires
        0 <= from <= to <= n <= s.len(),
    ensures
        s.subrange(0, n).subrange(from, to) == s.subrange(from, to),
{
    assert(s.subrange(0, n).subrange(from, to) =~= s.subrange(from, to));
}

/// A word that stands at `pos` reads back from there.
proof fn lemma_le32_at(s: Seq<u8>, pos: int, x: int)
    requires
        0 <= pos,
        pos + 4 <= s.len(),
        0 <= x <= u32::MAX,
        s.subrange(pos, pos + 4) == crate::bytes::bytes32(x),
    ensures
        crate::bytes::le32(s, pos) == x,
{
    crate::bytes::lemma_le32_of_bytes32(x as u32);
    let t = s.subrange(pos, pos + 4);
    assert(t[0] == s[pos] && t[1] == s[pos + 1] && t[2] == s[pos + 2] && t[3] == s[pos + 3]);
}

/// Component types of an accessor.
pub const COMPONENT_TYPE_BYTE: u32 = 5120;

pub const COMPONENT_TYPE_SHORT: u32 = 5122;

pub const COMPONENT_TYPE_UNSIGNED_SHORT: u32 = 5123;

pub const COMPONENT_TYPE_UNSIGNED_INT: u32 = 5125;

pub const COMPONENT_TYPE_FLOAT: u32 = 5126;

/// What a buffer view is for.
pub const TARGET_ARRAY_BUFFER: u32 = 34962;

pub const TARGET_ELEMENT_ARRAY_BUFFER: u32 = 34963;

/// A compressed stream in the binary chunk.
#[derive(Debug, Clone, Copy)]
pub struct Stream {
    pub offset: usize,
    pub length: usize,
    /// The bytes of one element when it is decompressed.
    pub element: usize,
    pub count: usize,
    /// A triangle list, or the elements of an attribute.
    pub triangles: bool,
}

/// A buffer view. One without a stream is a part of the binary chunk; one with a stream is a part
/// of a second buffer, which has a length and no bytes: what would stand there is the decompressed
/// stream.
#[derive(Debug, Clone, Copy)]
pub struct BufferView {
    pub offset: usize,
    pub length: usize,
    pub stride: Option<usize>,
    pub target: Option<u32>,
    pub stream: Option<Stream>,
}

/// The shape of an accessor's elements.
#[derive(Debug, Clone, Copy, PartialEq, Eq, Structural)]
pub enum Shape {
    Scalar,
    Vec2,
    Vec3,
    Vec4,
}

/// The least and the greatest of each component.
#[derive(Debug, Clone, Copy)]
#[allow(inconsistent_fields)]
pub enum Bounds {
    Shorts { min: (i16, i16, i16), max: (i16, i16, i16) },
    /// The bits of singles.
    Singles { min: (u32, u32, u32), max: (u32, u32, u32) },
}

/// How the elements of a buffer view are to be read.
#[derive(Debug, Clone, Copy)]
pub struct Accessor {
    pub view: u32,
    pub component_type: u32,
    pub count: usize,
    pub shape: Shape,
    pub normalized: bool,
    pub bounds: Option<Bounds>,
}

/// A document in the making.
#[derive(Debug)]
pub struct GltfBuilder {
    bin: Vec<u8>,
    buffer_views: Vec<BufferView>,
    accessors: Vec<Accessor>,
    images: Vec<(u32, String)>,
    textures: Vec<u32>,
    materials: Vec<Json>,
    meshes: Vec<Json>,
    nodes: Vec<Json>,
    image_bytes: usize,
    fallback_bytes: usize,
    used_meshopt: bool,
    used_quantization: bool,
    position_float_fallback_meshes: usize,
}

/// A [`GltfBuilder`] as plain values.
pub struct BuilderView {
    pub bin: Seq<u8>,
    pub buffer_views: Seq<BufferView>,
    pub accessors: Seq<Accessor>,
    /// The buffer view and the type of each image.
    pub images: Seq<(u32, Seq<char>)>,
    /// The image of each texture.
    pub textures: Seq<u32>,
    pub materials: Seq<crate::json::JsonView>,
    pub meshes: Seq<crate::json::JsonView>,
    pub nodes: Seq<crate::json::JsonView>,
    pub image_bytes: int,
    /// The length of the second buffer.
    pub fallback_bytes: int,
    pub used_meshopt: bool,
    pub used_quantization: bool,
    pub float_meshes: int,
}

/// The images as plain values.
pub open spec fn image_views(v: Seq<(u32, String)>) -> Seq<(u32, Seq<char>)> {
    Seq::new(v.len(), |i: int| (v[i].0, v[i].1@))
}

impl View for GltfBuilder {
    type V = BuilderView;

    closed spec fn view(&self) -> BuilderView {
        BuilderView {
            bin: self.bin@,
            buffer_views: self.buffer_views@,
            accessors: self.accessors@,
            images: image_views(self.images@),
            textures: self.textures@,
            materials: crate::json::json_views(self.materials@),
            meshes: crate::json::json_views(self.meshes@),
            nodes: crate::json::json_views(self.nodes@),
            image_bytes: self.image_bytes as int,
            fallback_bytes: self.fallback_bytes as int,
            used_meshopt: self.used_meshopt,
            used_quantization: self.used_quantization,
            float_meshes: self.position_float_fallback_meshes as int,
        }
    }
}

/// A document that has not begun.
pub open spec fn empty_builder() -> BuilderView {
    BuilderView {
        bin: Seq::empty(),
        buffer_views: Seq::empty(),
        accessors: Seq::empty(),
        images: Seq::empty(),
        textures: Seq::empty(),
        materials: Seq::empty(),
        meshes: Seq::empty(),
        nodes: Seq::empty(),
        image_bytes: 0,
        fallback_bytes: 0,
        used_meshopt: false,
        used_quantization: false,
        float_meshes: 0,
    }
}

/// Whether a buffer view starts on a multiple of four and lies inside its buffer.
pub open spec fn in_place(bin: Seq<u8>, fallback_bytes: int, v: BufferView) -> bool {
    &&& v.offset % 4 == 0
    &&& match v.stream {
        None => v.offset + v.length <= bin.len(),
        Some(s) => {
            &&& s.offset % 4 == 0
            &&& s.offset + s.length <= bin.len()
            &&& v.offset + v.length <= fallback_bytes
            &&& v.length == s.count * s.element
        },
    }
}

/// What holds of every document in the making.
pub open spec fn sound(b: BuilderView) -> bool {
    &&& forall|i: int|
        0 <= i < b.buffer_views.len() ==> in_place(
            b.bin,
            b.fallback_bytes,
            #[trigger] b.buffer_views[i],
        )
    &&& forall|i: int|
        0 <= i < b.accessors.len() ==> (#[trigger] b.accessors[i]).view < b.buffer_views.len()
    &&& forall|i: int|
        0 <= i < b.images.len() ==> (#[trigger] b.images[i]).0 < b.buffer_views.len()
    &&& 0 <= b.image_bytes <= b.bin.len()
    &&& 0 <= b.float_meshes <= b.accessors.len()
}

/// Whether every list of a document can take one more item that is found by its index.
pub open spec fn has_space(b: BuilderView) -> bool {
    &&& b.buffer_views.len() < u32::MAX
    &&& b.accessors.len() < u32::MAX
    &&& b.images.len() < u32::MAX
    &&& b.textures.len() < u32::MAX
    &&& b.materials.len() < u32::MAX
    &&& b.meshes.len() < u32::MAX
    &&& b.nodes.len() < u32::MAX
}

/// Whether a document can take a stream of `n` bytes.
pub open spec fn can_take(b: BuilderView, n: int) -> bool {
    has_space(b) && n <= isize::MAX / 4 && b.fallback_bytes + n + 3 <= usize::MAX
}

/// A document with a plain buffer view more.
pub open spec fn with_plain_view(b: BuilderView, bytes: Seq<u8>, target: Option<u32>) -> BuilderView {
    let start = padded(b.bin, 0);
    BuilderView {
        bin: start + bytes,
        buffer_views: b.buffer_views.push(
            BufferView {
                offset: start.len() as usize,
                length: bytes.len() as usize,
                stride: None,
                target,
                stream: None,
            },
        ),
        ..b
    }
}

/// A document with a compressed stream more, which decompresses to `count` elements.
pub open spec fn with_stream(
    b: BuilderView,
    compressed: Seq<u8>,
    count: int,
    element: int,
    triangles: bool,
    target: Option<u32>,
) -> BuilderView {
    let start = padded(b.bin, 0);
    let virtual_start = b.fallback_bytes + gap(b.fallback_bytes);
    BuilderView {
        bin: start + compressed,
        buffer_views: b.buffer_views.push(
            BufferView {
                offset: virtual_start as usize,
                length: (count * element) as usize,
                stride: if triangles {
                    None
                } else {
                    Some(element as usize)
                },
                target,
                stream: Some(
                    Stream {
                        offset: start.len() as usize,
                        length: compressed.len() as usize,
                        element: element as usize,
                        count: count as usize,
                        triangles,
                    },
                ),
            },
        ),
        fallback_bytes: virtual_start + count * element,
        used_meshopt: true,
        ..b
    }
}

/// The stream of an attribute; that of no elements is empty.
pub open spec fn attribute_stream(raw: Seq<u8>, count: int, stride: int) -> Seq<u8> {
    if count == 0 {
        Seq::empty()
    } else {
        crate::codec::encoded_vertices(raw, count as nat, stride as nat, 3, 1)
    }
}

/// A document with an accessor more.
pub open spec fn with_accessor(b: BuilderView, a: Accessor) -> BuilderView {
    BuilderView { accessors: b.accessors.push(a), ..b }
}

/// A document with an attribute more: its stream, and the accessor that reads it.
pub open spec fn with_attribute(
    b: BuilderView,
    raw: Seq<u8>,
    count: int,
    stride: int,
    component_type: u32,
    shape: Shape,
    normalized: bool,
    bounds: Option<Bounds>,
) -> BuilderView {
    with_accessor(
        with_stream(
            b,
            attribute_stream(raw, count, stride),
            count,
            stride,
            false,
            Some(TARGET_ARRAY_BUFFER),
        ),
        Accessor {
            view: b.buffer_views.len() as u32,
            component_type,
            count: count as usize,
            shape,
            normalized,
            bounds,
        },
    )
}

/// A document whose attributes are quantised.
pub open spec fn with_quantization(b: BuilderView) -> BuilderView {
    BuilderView { used_quantization: true, ..b }
}

/// A stream more keeps a document sound.
proof fn lemma_stream_sound(
    b: BuilderView,
    compressed: Seq<u8>,
    count: int,
    element: int,
    triangles: bool,
    target: Option<u32>,
)
    requires
        sound(b),
        b.fallback_bytes >= 0,
        0 <= count * element,
        0 <= count <= usize::MAX,
        0 <= element <= usize::MAX,
        b.fallback_bytes + count * element + 3 <= usize::MAX,
        padded(b.bin, 0).len() + compressed.len() <= usize::MAX,
    ensures
        sound(with_stream(b, compressed, count, element, triangles, target)),
{
    let after = with_stream(b, compressed, count, element, triangles, target);
    assert forall|i: int| 0 <= i < after.buffer_views.len() implies in_place(
        after.bin,
        after.fallback_bytes,
        #[trigger] after.buffer_views[i],
    ) by {
        if i < b.buffer_views.len() {
            assert(in_place(b.bin, b.fallback_bytes, b.buffer_views[i]));
        }
    }
}

/// A document is sound by its buffers, accessors, images and counts.
proof fn lemma_same_sound(a: BuilderView, b: BuilderView)
    requires
        sound(a),
        b.bin == a.bin,
        b.buffer_views == a.buffer_views,
        b.accessors == a.accessors,
        b.images == a.images,
        b.image_bytes == a.image_bytes,
        b.fallback_bytes == a.fallback_bytes,
        0 <= b.float_meshes <= b.accessors.len(),
    ensures
        sound(b),
{
    assert forall|i: int| 0 <= i < b.buffer_views.len() implies in_place(
        b.bin,
        b.fallback_bytes,
        #[trigger] b.buffer_views[i],
    ) by {
        assert(in_place(a.bin, a.fallback_bytes, a.buffer_views[i]));
    }
}

/// What was written before stays where it is: a stream more, or a plain buffer view more, changes
/// no byte of the binary chunk that is there, nor a buffer view that is there.
pub proof fn earlier_streams_stay(
    b: BuilderView,
    compressed: Seq<u8>,
    count: int,
    element: int,
    triangles: bool,
    target: Option<u32>,
)
    ensures
        ({
            let after = with_stream(b, compressed, count, element, triangles, target);
            &&& after.bin.take(b.bin.len() as int) == b.bin
            &&& after.buffer_views.take(b.buffer_views.len() as int) == b.buffer_views
        }),
        ({
            let after = with_plain_view(b, compressed, target);
            &&& after.bin.take(b.bin.len() as int) == b.bin
            &&& after.buffer_views.take(b.buffer_views.len() as int) == b.buffer_views
        }),
{
    let one = with_stream(b, compressed, count, element, triangles, target);
    assert(one.bin.take(b.bin.len() as int) =~= b.bin);
    assert(one.buffer_views.take(b.buffer_views.len() as int) =~= b.buffer_views);
    let other = with_plain_view(b, compressed, target);
    assert(other.bin.take(b.bin.len() as int) =~= b.bin);
    assert(other.buffer_views.take(b.buffer_views.len() as int) =~= b.buffer_views);
}

/// The words of rows, one row after the other.
pub open spec fn rows32<const N: usize>(v: Seq<[u32; N]>) -> Seq<u32>
    decreases v.len(),
{
    if v.len() == 0 {
        Seq::empty()
    } else {
        rows32(v.drop_last()) + v.last()@
    }
}

/// The words of rows, one row after the other.
pub open spec fn rows16<const N: usize>(v: Seq<[u16; N]>) -> Seq<u16>
    decreases v.len(),
{
    if v.len() == 0 {
        Seq::empty()
    } else {
        rows16(v.drop_last()) + v.last()@
    }
}

/// Puts rows one after the other.
fn flat32<const N: usize>(v: &Vec<[u32; N]>) -> (r: Vec<u32>)
    ensures
        r@ == rows32(v@),
        r@.len() == v@.len() * N,
{
    let mut out: Vec<u32> = Vec::new();
    let mut i: usize = 0;
    assert(0 * N == 0);
    while i < v.len()
        invariant
            i <= v@.len(),
            out@ == rows32(v@.take(i as int)),
            out@.len() == i * N,
        decreases v@.len() - i,
    {
        proof {
            assert(v@.take(i + 1).drop_last() =~= v@.take(i as int));
            assert(v@.take(i + 1).last() == v@[i as int]);
        }
        let ghost before = out@;
        let mut c: usize = 0;
        assert(out@ =~= before + v@[i as int]@.take(0));
        while c < N
            invariant
                c <= N,
                i < v@.len(),
                out@ == before + v@[i as int]@.take(c as int),
            decreases N - c,
        {
            out.push(v[i][c]);
            c += 1;
            assert(out@ =~= before + v@[i as int]@.take(c as int));
        }
        assert(v@[i as int]@.take(N as int) =~= v@[i as int]@);
        assert((i + 1) * N == i * N + N) by (nonlinear_arith);
        i += 1;
    }
    assert(v@.take(i as int) =~= v@);
    out
}

/// Puts rows one after the other.
fn flat16<const N: usize>(v: &Vec<[u16; N]>) -> (r: Vec<u16>)
    ensures
        r@ == rows16(v@),
        r@.len() == v@.len() * N,
{
    let mut out: Vec<u16> = Vec::new();
    let mut i: usize = 0;
    assert(0 * N == 0);
    while i < v.len()
        invariant
            i <= v@.len(),
            out@ == rows16(v@.take(i as int)),
            out@.len() == i * N,
        decreases v@.len() - i,
    {
        proof {
            assert(v@.take(i + 1).drop_last() =~= v@.take(i as int));
            assert(v@.take(i + 1).last() == v@[i as int]);
        }
        let ghost before = out@;
        let mut c: usize = 0;
        assert(out@ =~= before + v@[i as int]@.take(0));
        while c < N
            invariant
                c <= N,
                i < v@.len(),
                out@ == before + v@[i as int]@.take(c as int),
            decreases N - c,
        {
            out.push(v[i][c]);
            c += 1;
            assert(out@ =~= before + v@[i as int]@.take(c as int));
        }
        assert(v@[i as int]@.take(N as int) =~= v@[i as int]@);
        assert((i + 1) * N == i * N + N) by (nonlinear_arith);
        i += 1;
    }
    assert(v@.take(i as int) =~= v@);
    out
}

impl Default for GltfBuilder {
    fn default() -> (r: GltfBuilder)
        ensures
            r@ == empty_builder(),
            sound(r@),
    {
        GltfBuilder::new()
    }
}

impl GltfBuilder {
    /// A document that has not begun.
    pub fn new() -> (r: GltfBuilder)
        ensures
            r@ == empty_builder(),
            sound(r@),
    {
        let r: GltfBuilder = GltfBuilder {
            bin: Vec::new(),
            buffer_views: Vec::new(),
            accessors: Vec::new(),
            images: Vec::new(),
            textures: Vec::new(),
            materials: Vec::new(),
            meshes: Vec::new(),
            nodes: Vec::new(),
            image_bytes: 0,
            fallback_bytes: 0,
            used_meshopt: false,
            used_quantization: false,
            position_float_fallback_meshes: 0,
        };
        proof {
            assert(r@.images =~= Seq::<(u32, Seq<char>)>::empty());
            assert(r@.materials =~= Seq::<crate::json::JsonView>::empty());
            assert(r@.meshes =~= Seq::<crate::json::JsonView>::empty());
            assert(r@.nodes =~= Seq::<crate::json::JsonView>::empty());
        }
        r
    }

    /// Appends bytes to the binary chunk as they are, and returns the index of their buffer view.
    pub fn push_buffer_view(&mut self, bytes: &[u8], target: Option<u32>) -> (r: u32)
        requires
            sound(old(self)@),
            has_space(old(self)@),
        ensures
            final(self)@ == with_plain_view(old(self)@, bytes@, target),
            r == old(self)@.buffer_views.len(),
            sound(final(self)@),
    {
        let ghost before = self@;
        pad4(&mut self.bin, 0);
        let offset: usize = self.bin.len();
        push_all(&mut self.bin, bytes);
        assert(self.bin.len() <= usize::MAX);
        let index: u32 = self.buffer_views.len() as u32;
        self.buffer_views.push(
            BufferView { offset, length: bytes.len(), stride: None, target, stream: None },
        );
        proof {
            assert forall|i: int| 0 <= i < self@.buffer_views.len() implies in_place(
                self@.bin,
                self@.fallback_bytes,
                #[trigger] self@.buffer_views[i],
            ) by {
                if i < before.buffer_views.len() {
                    assert(in_place(before.bin, before.fallback_bytes, before.buffer_views[i]));
                }
            }
        }
        index
    }

    /// Appends an accessor, and returns its index.
    fn push_accessor(&mut self, a: Accessor) -> (r: u32)
        requires
            sound(old(self)@),
            has_space(old(self)@) || old(self)@.accessors.len() < u32::MAX,
            a.view < old(self)@.buffer_views.len(),
        ensures
            final(self)@ == with_accessor(old(self)@, a),
            r == old(self)@.accessors.len(),
            sound(final(self)@),
    {
        let index: u32 = self.accessors.len() as u32;
        self.accessors.push(a);
        index
    }

    /// Appends a compressed stream, and returns the index of its buffer view.
    fn push_stream(
        &mut self,
        compressed: &[u8],
        count: usize,
        element: usize,
        triangles: bool,
        target: Option<u32>,
    ) -> (r: u32)
        requires
            sound(old(self)@),
            can_take(old(self)@, count * element),
        ensures
            final(self)@ == with_stream(
                old(self)@,
                compressed@,
                count as int,
                element as int,
                triangles,
                target,
            ),
            r == old(self)@.buffer_views.len(),
            sound(final(self)@),
    {
        let ghost before = self@;
        assert(0 <= count * element) by (nonlinear_arith);
        pad4(&mut self.bin, 0);
        let offset: usize = self.bin.len();
        push_all(&mut self.bin, compressed);
        assert(self.bin.len() <= usize::MAX);
        let rest: usize = self.fallback_bytes % 4;
        let filler: usize = if rest == 0 {
            0
        } else {
            4 - rest
        };
        let start: usize = self.fallback_bytes + filler;
        let length: usize = count * element;
        self.fallback_bytes = start + length;
        let index: u32 = self.buffer_views.len() as u32;
        self.buffer_views.push(
            BufferView {
                offset: start,
                length,
                stride: if triangles {
                    None
                } else {
                    Some(element)
                },
                target,
                stream: Some(
                    Stream { offset, length: compressed.len(), element, count, triangles },
                ),
            },
        );
        self.used_meshopt = true;
        proof {
            lemma_stream_sound(
                before,
                compressed@,
                count as int,
                element as int,
                triangles,
                target,
            );
        }
        index
    }

    /// Compresses an attribute of `count` elements of `stride` bytes each, and returns the index of
    /// its buffer view. What is written decompresses to what was given.
    pub fn push_meshopt_attribute_view(
        &mut self,
        raw: &[u8],
        count: usize,
        stride: usize,
        target: Option<u32>,
    ) -> (r: u32)
        requires
            sound(old(self)@),
            crate::codec::valid_stride(stride as int),
            raw@.len() == count * stride,
            can_take(old(self)@, raw@.len() as int),
        ensures
            final(self)@ == with_stream(
                old(self)@,
                attribute_stream(raw@, count as int, stride as int),
                count as int,
                stride as int,
                false,
                target,
            ),
            r == old(self)@.buffer_views.len(),
            sound(final(self)@),
            count > 0 ==> crate::codec::reads_back(
                final(self)@.bin.skip(padded(old(self)@.bin, 0).len() as int),
                raw@,
                stride as nat,
            ),
    {
        let ghost start = padded(self@.bin, 0);
        let compressed: Vec<u8> = if count == 0 {
            Vec::new()
        } else {
            proof {
                vstd::arithmetic::div_mod::lemma_mod_multiples_basic(count as int, stride as int);
                vstd::arithmetic::div_mod::lemma_div_by_multiple(count as int, stride as int);
            }
            encode_vertices(raw, stride, 3, 1)
        };
        assert(compressed@ =~= attribute_stream(raw@, count as int, stride as int));
        let r: u32 = self.push_stream(compressed.as_slice(), count, stride, false, target);
        assert(self@.bin.skip(start.len() as int) =~= compressed@);
        r
    }

    /// Writes an attribute, and returns the index of its accessor.
    fn push_attribute(
        &mut self,
        raw: &[u8],
        count: usize,
        stride: usize,
        component_type: u32,
        shape: Shape,
        normalized: bool,
        bounds: Option<Bounds>,
    ) -> (r: u32)
        requires
            sound(old(self)@),
            crate::codec::valid_stride(stride as int),
            raw@.len() == count * stride,
            can_take(old(self)@, raw@.len() as int),
        ensures
            final(self)@ == with_attribute(
                old(self)@,
                raw@,
                count as int,
                stride as int,
                component_type,
                shape,
                normalized,
                bounds,
            ),
            r == old(self)@.accessors.len(),
            sound(final(self)@),
    {
        let view: u32 = self.push_meshopt_attribute_view(
            raw,
            count,
            stride,
            Some(TARGET_ARRAY_BUFFER),
        );
        self.push_accessor(Accessor { view, component_type, count, shape, normalized, bounds })
    }

    /// Three singles per vertex.
    pub fn add_vec3(&mut self, values: &Vec<[u32; 3]>) -> (r: u32)
        requires
            sound(old(self)@),
            can_take(old(self)@, 12 * (values@.len() as int)),
        ensures
            final(self)@ == with_attribute(
                old(self)@,
                crate::bytes::all_bytes32(rows32(values@)),
                values@.len() as int,
                12,
                COMPONENT_TYPE_FLOAT,
                Shape::Vec3,
                false,
                None,
            ),
            r == old(self)@.accessors.len(),
            sound(final(self)@),
    {
        let words: Vec<u32> = flat32(values);
        proof {
            crate::bytes::lemma_all_bytes32(words@);
        }
        let bytes: Vec<u8> = flatten32(&words);
        self.push_attribute(
            bytes.as_slice(),
            values.len(),
            12,
            COMPONENT_TYPE_FLOAT,
            Shape::Vec3,
            false,
            None,
        )
    }

    /// Two singles per vertex.
    pub fn add_vec2(&mut self, values: &Vec<[u32; 2]>) -> (r: u32)
        requires
            sound(old(self)@),
            can_take(old(self)@, 8 * (values@.len() as int)),
        ensures
            final(self)@ == with_attribute(
                old(self)@,
                crate::bytes::all_bytes32(rows32(values@)),
                values@.len() as int,
                8,
                COMPONENT_TYPE_FLOAT,
                Shape::Vec2,
                false,
                None,
            ),
            r == old(self)@.accessors.len(),
            sound(final(self)@),
    {
        let words: Vec<u32> = flat32(values);
        proof {
            crate::bytes::lemma_all_bytes32(words@);
        }
        let bytes: Vec<u8> = flatten32(&words);
        self.push_attribute(
            bytes.as_slice(),
            values.len(),
            8,
            COMPONENT_TYPE_FLOAT,
            Shape::Vec2,
            false,
            None,
        )
    }

    /// Two numbers from 0 to 1 per vertex, in 65535ths.
    pub fn add_uv1_u16(&mut self, values: &Vec<[u16; 2]>) -> (r: u32)
        requires
            sound(old(self)@),
            can_take(old(self)@, 4 * (values@.len() as int)),
        ensures
            final(self)@ == with_attribute(
                old(self)@,
                crate::bytes::all_bytes16(rows16(values@)),
                values@.len() as int,
                4,
                COMPONENT_TYPE_UNSIGNED_SHORT,
                Shape::Vec2,
                true,
                None,
            ),
            r == old(self)@.accessors.len(),
            sound(final(self)@),
    {
        let words: Vec<u16> = flat16(values);
        proof {
            crate::bytes::lemma_all_bytes16(words@);
        }
        let bytes: Vec<u8> = flatten16(&words);
        self.push_attribute(
            bytes.as_slice(),
            values.len(),
            4,
            COMPONENT_TYPE_UNSIGNED_SHORT,
            Shape::Vec2,
            true,
            None,
        )
    }

    /// Texture coordinates: in 65535ths where all of them lie between 0 and 1, else as singles.
    /// `quantized` holds the same coordinates in 65535ths.
    pub fn add_uv0(&mut self, values: &Vec<[u32; 2]>, quantized: &Vec<[u16; 2]>) -> (r: u32)
        requires
            sound(old(self)@),
            quantized@.len() == values@.len(),
            can_take(old(self)@, 8 * (values@.len() as int)),
        ensures
            all_in_unit(values@) ==> final(self)@ == with_attribute(
                old(self)@,
                crate::bytes::all_bytes16(rows16(quantized@)),
                values@.len() as int,
                4,
                COMPONENT_TYPE_UNSIGNED_SHORT,
                Shape::Vec2,
                true,
                None,
            ),
            !all_in_unit(values@) ==> final(self)@ == with_attribute(
                old(self)@,
                crate::bytes::all_bytes32(rows32(values@)),
                values@.len() as int,
                8,
                COMPONENT_TYPE_FLOAT,
                Shape::Vec2,
                false,
                None,
            ),
            r == old(self)@.accessors.len(),
            sound(final(self)@),
    {
        if in_unit_range(values) {
            self.add_uv1_u16(quantized)
        } else {
            self.add_vec2(values)
        }
    }

    /// One single per vertex, held to the range from 0 to 1.
    pub fn add_blend_f32(&mut self, values: &Vec<u32>) -> (r: u32)
        requires
            sound(old(self)@),
            can_take(old(self)@, 4 * (values@.len() as int)),
        ensures
            final(self)@ == with_attribute(
                old(self)@,
                crate::bytes::all_bytes32(clamped(values@)),
                values@.len() as int,
                4,
                COMPONENT_TYPE_FLOAT,
                Shape::Scalar,
                false,
                None,
            ),
            r == old(self)@.accessors.len(),
            sound(final(self)@),
    {
        let mut words: Vec<u32> = Vec::new();
        let mut i: usize = 0;
        while i < values.len()
            invariant
                i <= values@.len(),
                words@ =~= clamped(values@).take(i as int),
            decreases values@.len() - i,
        {
            words.push(clamp_unit(values[i]));
            i += 1;
        }
        assert(words@ =~= clamped(values@));
        proof {
            crate::bytes::lemma_all_bytes32(words@);
        }
        let bytes: Vec<u8> = flatten32(&words);
        self.push_attribute(
            bytes.as_slice(),
            values.len(),
            4,
            COMPONENT_TYPE_FLOAT,
            Shape::Scalar,
            false,
            None,
        )
    }

    /// Baked light per vertex: a colour and how much of the sun is seen, each in 65535ths of the
    /// scale.
    pub fn add_lpv_u16(&mut self, values: &Vec<[u16; 4]>) -> (r: u32)
        requires
            sound(old(self)@),
            can_take(old(self)@, 8 * (values@.len() as int)),
        ensures
            final(self)@ == with_attribute(
                old(self)@,
                crate::bytes::all_bytes16(rows16(values@)),
                values@.len() as int,
                8,
                COMPONENT_TYPE_UNSIGNED_SHORT,
                Shape::Vec4,
                true,
                None,
            ),
            r == old(self)@.accessors.len(),
            sound(final(self)@),
    {
        let words: Vec<u16> = flat16(values);
        proof {
            crate::bytes::lemma_all_bytes16(words@);
        }
        let bytes: Vec<u8> = flatten16(&words);
        self.push_attribute(
            bytes.as_slice(),
            values.len(),
            8,
            COMPONENT_TYPE_UNSIGNED_SHORT,
            Shape::Vec4,
            true,
            None,
        )
    }

    /// Normals in 127ths, with a byte to fill each up to four.
    pub fn add_normals_quantized(&mut self, normals: &Vec<[i8; 3]>) -> (r: u32)
        requires
            sound(old(self)@),
            can_take(old(self)@, 4 * (normals@.len() as int)),
        ensures
            final(self)@ == with_quantization(
                with_attribute(
                    old(self)@,
                    normal_bytes(normals@),
                    normals@.len() as int,
                    4,
                    COMPONENT_TYPE_BYTE,
                    Shape::Vec3,
                    true,
                    None,
                ),
            ),
            r == old(self)@.accessors.len(),
            sound(final(self)@),
    {
        let mut bytes: Vec<u8> = Vec::new();
        let mut i: usize = 0;
        while i < normals.len()
            invariant
                i <= normals@.len(),
                bytes@ == normal_bytes(normals@.take(i as int)),
                bytes@.len() == 4 * i,
            decreases normals@.len() - i,
        {
            proof {
                assert(normals@.take(i + 1).drop_last() =~= normals@.take(i as int));
                assert(normals@.take(i + 1).last() == normals@[i as int]);
            }
            let ghost before = bytes@;
            bytes.push(#[verifier::truncate] (normals[i][0] as u8));
            bytes.push(#[verifier::truncate] (normals[i][1] as u8));
            bytes.push(#[verifier::truncate] (normals[i][2] as u8));
            bytes.push(0);
            assert(bytes@ =~= before + normal_row(normals@[i as int]));
            i += 1;
        }
        assert(normals@.take(i as int) =~= normals@);
        let r: u32 = self.push_attribute(
            bytes.as_slice(),
            normals.len(),
            4,
            COMPONENT_TYPE_BYTE,
            Shape::Vec3,
            true,
            None,
        );
        let ghost written = self@;
        self.used_quantization = true;
        proof {
            lemma_same_sound(written, self@);
        }
        r
    }
}

/// Whether every coordinate lies between 0 and 1.
pub open spec fn all_in_unit(v: Seq<[u32; 2]>) -> bool {
    forall|i: int, c: int|
        0 <= i < v.len() && 0 <= c < 2 ==> unit_range(#[trigger] v[i]@[c])
}

/// Whether a single lies between 0 and 1.
pub open spec fn unit_range(bits: u32) -> bool {
    crate::bits::f32_at_most(F32_ZERO, bits) && crate::bits::f32_at_most(bits, F32_ONE)
}

/// Whether every coordinate lies between 0 and 1.
fn in_unit_range(v: &Vec<[u32; 2]>) -> (r: bool)
    ensures
        r == all_in_unit(v@),
{
    let mut i: usize = 0;
    while i < v.len()
        invariant
            i <= v@.len(),
            forall|k: int, c: int|
                0 <= k < i && 0 <= c < 2 ==> unit_range(#[trigger] v@[k]@[c]),
        decreases v@.len() - i,
    {
        let x: u32 = v[i][0];
        let y: u32 = v[i][1];
        if !(f32_le(F32_ZERO, x) && f32_le(x, F32_ONE)) {
            assert(!unit_range(v@[i as int]@[0]));
            return false;
        }
        if !(f32_le(F32_ZERO, y) && f32_le(y, F32_ONE)) {
            assert(!unit_range(v@[i as int]@[1]));
            return false;
        }
        assert(unit_range(v@[i as int]@[0]) && unit_range(v@[i as int]@[1]));
        i += 1;
    }
    true
}

/// Singles held to the range from 0 to 1.
pub open spec fn clamped(v: Seq<u32>) -> Seq<u32> {
    Seq::new(v.len(), |i: int| crate::bits::clamped_unit(v[i]))
}

/// The four bytes of a normal.
pub open spec fn normal_row(n: [i8; 3]) -> Seq<u8> {
    seq![n@[0] as u8, n@[1] as u8, n@[2] as u8, 0u8]
}

/// The bytes of normals.
pub open spec fn normal_bytes(v: Seq<[i8; 3]>) -> Seq<u8>
    decreases v.len(),
{
    if v.len() == 0 {
        Seq::empty()
    } else {
        normal_bytes(v.drop_last()) + normal_row(v.last())
    }
}

/// The greatest coordinate of the grid.
pub const GRID_LIMIT: i64 = 0x3FFF_FFFF_FFFF_FFFF;

/// Whether a coordinate of the grid is near enough to a centre for sixteen bits.
pub open spec fn near(g: i64, center: i64) -> bool {
    -GRID_LIMIT <= g <= GRID_LIMIT && -GRID_LIMIT <= center <= GRID_LIMIT && -32767 <= g - center
        <= 32767
}

/// Whether every vertex is near enough to a centre for sixteen bits.
pub open spec fn on_grid(grid: Seq<[i64; 3]>, center: (i64, i64, i64)) -> bool {
    forall|i: int|
        0 <= i < grid.len() ==> near((#[trigger] grid[i])@[0], center.0) && near(
            grid[i]@[1],
            center.1,
        ) && near(grid[i]@[2], center.2)
}

/// A number of sixteen bits with a sign, as a word.
pub open spec fn short_word(q: int) -> u16 {
    if q >= 0 {
        q as u16
    } else {
        (65536 + q) as u16
    }
}

/// The words of one position: three coordinates from the centre, and one to fill up.
pub open spec fn grid_row(g: [i64; 3], center: (i64, i64, i64)) -> Seq<u16> {
    seq![
        short_word(g@[0] - center.0),
        short_word(g@[1] - center.1),
        short_word(g@[2] - center.2),
        0u16,
    ]
}

/// The words of positions.
pub open spec fn grid_words(grid: Seq<[i64; 3]>, center: (i64, i64, i64)) -> Seq<u16>
    decreases grid.len(),
{
    if grid.len() == 0 {
        Seq::empty()
    } else {
        grid_words(grid.drop_last(), center) + grid_row(grid.last(), center)
    }
}

/// The least coordinate from the centre on axis `c`; the greatest that there is where there are no
/// vertices.
pub open spec fn least(grid: Seq<[i64; 3]>, c: int, center: i64) -> int
    decreases grid.len(),
{
    if grid.len() == 0 {
        32767
    } else {
        let before = least(grid.drop_last(), c, center);
        let q = grid.last()@[c] - center;
        if q < before {
            q
        } else {
            before
        }
    }
}

/// The greatest coordinate from the centre on axis `c`; the least that there is where there are no
/// vertices.
pub open spec fn greatest(grid: Seq<[i64; 3]>, c: int, center: i64) -> int
    decreases grid.len(),
{
    if grid.len() == 0 {
        -32768
    } else {
        let before = greatest(grid.drop_last(), c, center);
        let q = grid.last()@[c] - center;
        if q > before {
            q
        } else {
            before
        }
    }
}

/// The bounds of positions on the grid; 0 where there are none.
pub open spec fn grid_bounds(grid: Seq<[i64; 3]>, center: (i64, i64, i64)) -> Bounds {
    if grid.len() == 0 {
        Bounds::Shorts { min: (0, 0, 0), max: (0, 0, 0) }
    } else {
        Bounds::Shorts {
            min: (
                least(grid, 0, center.0) as i16,
                least(grid, 1, center.1) as i16,
                least(grid, 2, center.2) as i16,
            ),
            max: (
                greatest(grid, 0, center.0) as i16,
                greatest(grid, 1, center.1) as i16,
                greatest(grid, 2, center.2) as i16,
            ),
        }
    }
}

/// What a word stands for, read with its sign.
pub open spec fn word_value(w: u16) -> int {
    crate::bytes::as_signed16(w as int)
}

/// A vertex that two meshes share is at one place: whatever the centres, the words of the one and
/// of the other, each moved by its own centre, give the same coordinate of the grid.
pub proof fn shared_vertices_agree(g: i64, a: i64, b: i64)
    requires
        near(g, a),
        near(g, b),
    ensures
        word_value(short_word(g - a)) + a == g,
        word_value(short_word(g - b)) + b == g,
        word_value(short_word(g - a)) + a == word_value(short_word(g - b)) + b,
{
}

/// Whether a coordinate is near enough, and what it is from the centre.
fn from_center(g: i64, center: i64) -> (r: Option<i32>)
    ensures
        match r {
            Some(q) => near(g, center) && q == g - center,
            None => !near(g, center),
        },
{
    if g < -GRID_LIMIT || g > GRID_LIMIT || center < -GRID_LIMIT || center > GRID_LIMIT {
        return None;
    }
    let q: i64 = g - center;
    if q < -32767 || q > 32767 {
        None
    } else {
        Some(q as i32)
    }
}

/// A number of sixteen bits with a sign, as a word.
fn word_of(q: i32) -> (r: u16)
    requires
        -32767 <= q <= 32767,
    ensures
        r == short_word(q as int),
{
    if q >= 0 {
        q as u16
    } else {
        (65536 + q) as u16
    }
}

/// The words and the bounds of positions; none where one is not near enough to the centre.
fn quantize(grid: &Vec<[i64; 3]>, center: (i64, i64, i64)) -> (r: Option<(Vec<u16>, Bounds)>)
    ensures
        match r {
            Some(p) => {
                &&& on_grid(grid@, center)
                &&& p.0@ == grid_words(grid@, center)
                &&& p.0@.len() == 4 * grid@.len()
                &&& p.1 == grid_bounds(grid@, center)
            },
            None => !on_grid(grid@, center),
        },
{
    let mut words: Vec<u16> = Vec::new();
    let mut min: (i32, i32, i32) = (32767, 32767, 32767);
    let mut max: (i32, i32, i32) = (-32768, -32768, -32768);
    let mut i: usize = 0;
    while i < grid.len()
        invariant
            i <= grid@.len(),
            on_grid(grid@.take(i as int), center),
            words@ == grid_words(grid@.take(i as int), center),
            words@.len() == 4 * i,
            min.0 == least(grid@.take(i as int), 0, center.0),
            min.1 == least(grid@.take(i as int), 1, center.1),
            min.2 == least(grid@.take(i as int), 2, center.2),
            max.0 == greatest(grid@.take(i as int), 0, center.0),
            max.1 == greatest(grid@.take(i as int), 1, center.1),
            max.2 == greatest(grid@.take(i as int), 2, center.2),
            -32768 <= min.0 <= 32767 && -32768 <= min.1 <= 32767 && -32768 <= min.2 <= 32767,
            -32768 <= max.0 <= 32767 && -32768 <= max.1 <= 32767 && -32768 <= max.2 <= 32767,
        decreases grid@.len() - i,
    {
        let ghost part = grid@.take(i + 1);
        proof {
            assert(part.drop_last() =~= grid@.take(i as int));
            assert(part.last() == grid@[i as int]);
        }
        let x: i32 = match from_center(grid[i][0], center.0) {
            Some(q) => q,
            None => {
                return None;
            },
        };
        let y: i32 = match from_center(grid[i][1], center.1) {
            Some(q) => q,
            None => {
                return None;
            },
        };
        let z: i32 = match from_center(grid[i][2], center.2) {
            Some(q) => q,
            None => {
                return None;
            },
        };
        let ghost before = words@;
        words.push(word_of(x));
        words.push(word_of(y));
        words.push(word_of(z));
        words.push(0);
        assert(words@ =~= before + grid_row(grid@[i as int], center));
        min = (
            if x < min.0 {
                x
            } else {
                min.0
            },
            if y < min.1 {
                y
            } else {
                min.1
            },
            if z < min.2 {
                z
            } else {
                min.2
            },
        );
        max = (
            if x > max.0 {
                x
            } else {
                max.0
            },
            if y > max.1 {
                y
            } else {
                max.1
            },
            if z > max.2 {
                z
            } else {
                max.2
            },
        );
        proof {
            assert forall|k: int| 0 <= k < part.len() implies near(
                (#[trigger] part[k])@[0],
                center.0,
            ) && near(part[k]@[1], center.1) && near(part[k]@[2], center.2) by {
                if k < i {
                    assert(grid@.take(i as int)[k] == part[k]);
                }
            }
        }
        i += 1;
    }
    assert(grid@.take(i as int) =~= grid@);
    let bounds: Bounds = if grid.len() == 0 {
        Bounds::Shorts { min: (0, 0, 0), max: (0, 0, 0) }
    } else {
        Bounds::Shorts {
            min: (min.0 as i16, min.1 as i16, min.2 as i16),
            max: (max.0 as i16, max.1 as i16, max.2 as i16),
        }
    };
    Some((words, bounds))
}

/// A document with positions more. Where every vertex is near enough to the centre they are
/// written in steps of the grid from the centre, else as they are.
pub open spec fn with_positions(
    b: BuilderView,
    positions: Seq<[u32; 3]>,
    grid: Seq<[i64; 3]>,
    center: (i64, i64, i64),
    min: (u32, u32, u32),
    max: (u32, u32, u32),
) -> BuilderView {
    if on_grid(grid, center) {
        with_quantization(
            with_attribute(
                b,
                crate::bytes::all_bytes16(grid_words(grid, center)),
                grid.len() as int,
                8,
                COMPONENT_TYPE_SHORT,
                Shape::Vec3,
                false,
                Some(grid_bounds(grid, center)),
            ),
        )
    } else {
        let after = with_attribute(
            b,
            crate::bytes::all_bytes32(rows32(positions)),
            positions.len() as int,
            12,
            COMPONENT_TYPE_FLOAT,
            Shape::Vec3,
            false,
            Some(Bounds::Singles { min, max }),
        );
        BuilderView { float_meshes: after.float_meshes + 1, ..after }
    }
}

/// Whether indices fit in sixteen bits. The greatest word marks a restart and is no index.
pub open spec fn fits_u16(indices: Seq<u32>) -> bool {
    forall|i: int| 0 <= i < indices.len() ==> #[trigger] indices[i] < 65535
}

/// Whether indices are a list of triangles.
pub open spec fn is_triangle_list(indices: Seq<u32>) -> bool {
    indices.len() > 0 && indices.len() % 3 == 0
}

/// The greatest index.
pub open spec fn greatest_index(indices: Seq<u32>) -> int
    decreases indices.len(),
{
    if indices.len() == 0 {
        0
    } else {
        let before = greatest_index(indices.drop_last());
        if indices.last() > before {
            indices.last() as int
        } else {
            before
        }
    }
}

/// Indices as words of sixteen bits.
pub open spec fn narrowed(indices: Seq<u32>) -> Seq<u16> {
    Seq::new(indices.len(), |i: int| indices[i] as u16)
}

/// What stands in the words of positions.
proof fn lemma_grid_words(grid: Seq<[i64; 3]>, center: (i64, i64, i64), i: int)
    requires
        0 <= i < grid.len(),
    ensures
        grid_words(grid, center).len() == 4 * grid.len(),
        grid_words(grid, center)[4 * i] == short_word(grid[i]@[0] - center.0),
        grid_words(grid, center)[4 * i + 1] == short_word(grid[i]@[1] - center.1),
        grid_words(grid, center)[4 * i + 2] == short_word(grid[i]@[2] - center.2),
    decreases grid.len(),
{
    let before = grid.drop_last();
    if i < before.len() {
        lemma_grid_words(before, center, i);
        assert(before[i] == grid[i]);
    } else if before.len() > 0 {
        lemma_grid_words(before, center, 0);
    } else {
        assert(grid_words(before, center).len() == 0);
    }
}

/// A vertex that two meshes share is at one place, whatever their bounds: where no mesh had to be
/// written as singles, the words of the one and of the other, each moved by its own centre, give the
/// same coordinates of the grid.
pub proof fn meshes_share_the_grid(
    b: BuilderView,
    between: BuilderView,
    positions_a: Seq<[u32; 3]>,
    grid_a: Seq<[i64; 3]>,
    center_a: (i64, i64, i64),
    min_a: (u32, u32, u32),
    max_a: (u32, u32, u32),
    positions_b: Seq<[u32; 3]>,
    grid_b: Seq<[i64; 3]>,
    center_b: (i64, i64, i64),
    min_b: (u32, u32, u32),
    max_b: (u32, u32, u32),
    i: int,
    j: int,
)
    requires
        b.float_meshes >= 0,
        between.float_meshes >= with_positions(
            b,
            positions_a,
            grid_a,
            center_a,
            min_a,
            max_a,
        ).float_meshes,
        with_positions(
            between,
            positions_b,
            grid_b,
            center_b,
            min_b,
            max_b,
        ).float_meshes == 0,
        0 <= i < grid_a.len(),
        0 <= j < grid_b.len(),
        grid_a[i]@ == grid_b[j]@,
    ensures
        ({
            let q = grid_words(grid_a, center_a);
            let r = grid_words(grid_b, center_b);
            &&& word_value(q[4 * i]) + center_a.0 == word_value(r[4 * j]) + center_b.0
            &&& word_value(q[4 * i + 1]) + center_a.1 == word_value(r[4 * j + 1]) + center_b.1
            &&& word_value(q[4 * i + 2]) + center_a.2 == word_value(r[4 * j + 2]) + center_b.2
            &&& word_value(q[4 * i]) + center_a.0 == grid_a[i]@[0]
            &&& word_value(q[4 * i + 1]) + center_a.1 == grid_a[i]@[1]
            &&& word_value(q[4 * i + 2]) + center_a.2 == grid_a[i]@[2]
        }),
{
    assert(on_grid(grid_a, center_a));
    assert(on_grid(grid_b, center_b));
    lemma_grid_words(grid_a, center_a, i);
    lemma_grid_words(grid_b, center_b, j);
    assert(near(grid_a[i]@[0], center_a.0) && near(grid_b[j]@[0], center_b.0));
    shared_vertices_agree(grid_a[i]@[0], center_a.0, center_b.0);
    shared_vertices_agree(grid_a[i]@[1], center_a.1, center_b.1);
    shared_vertices_agree(grid_a[i]@[2], center_a.2, center_b.2);
}

/// A document with indices more.
pub open spec fn with_indices(b: BuilderView, indices: Seq<u32>) -> BuilderView {
    let element = if fits_u16(indices) {
        2
    } else {
        4int
    };
    let after = if is_triangle_list(indices) {
        with_stream(
            b,
            crate::codec::encoded_indices(indices, (greatest_index(indices) + 1) as nat),
            indices.len() as int,
            element,
            true,
            Some(TARGET_ELEMENT_ARRAY_BUFFER),
        )
    } else if fits_u16(indices) {
        with_plain_view(
            b,
            crate::bytes::all_bytes16(narrowed(indices)),
            Some(TARGET_ELEMENT_ARRAY_BUFFER),
        )
    } else {
        with_plain_view(
            b,
            crate::bytes::all_bytes32(indices),
            Some(TARGET_ELEMENT_ARRAY_BUFFER),
        )
    };
    with_accessor(
        after,
        Accessor {
            view: b.buffer_views.len() as u32,
            component_type: if fits_u16(indices) {
                COMPONENT_TYPE_UNSIGNED_SHORT
            } else {
                COMPONENT_TYPE_UNSIGNED_INT
            },
            count: indices.len() as usize,
            shape: Shape::Scalar,
            normalized: false,
            bounds: None,
        },
    )
}

/// Finds the greatest index.
fn find_greatest(indices: &Vec<u32>) -> (r: u32)
    ensures
        r == greatest_index(indices@),
        forall|i: int| 0 <= i < indices@.len() ==> #[trigger] indices@[i] <= r,
{
    let mut m: u32 = 0;
    let mut i: usize = 0;
    while i < indices.len()
        invariant
            i <= indices@.len(),
            m == greatest_index(indices@.take(i as int)),
            forall|k: int| 0 <= k < i ==> #[trigger] indices@[k] <= m,
        decreases indices@.len() - i,
    {
        proof {
            assert(indices@.take(i + 1).drop_last() =~= indices@.take(i as int));
            assert(indices@.take(i + 1).last() == indices@[i as int]);
        }
        if indices[i] > m {
            m = indices[i];
        }
        i += 1;
    }
    assert(indices@.take(i as int) =~= indices@);
    m
}

/// Whether indices fit in sixteen bits.
fn all_fit_u16(indices: &Vec<u32>) -> (r: bool)
    ensures
        r == fits_u16(indices@),
{
    let mut i: usize = 0;
    while i < indices.len()
        invariant
            i <= indices@.len(),
            forall|k: int| 0 <= k < i ==> #[trigger] indices@[k] < 65535,
        decreases indices@.len() - i,
    {
        if indices[i] >= 65535 {
            return false;
        }
        i += 1;
    }
    true
}

/// Indices as words of sixteen bits.
fn narrow(indices: &Vec<u32>) -> (r: Vec<u16>)
    requires
        fits_u16(indices@),
    ensures
        r@ == narrowed(indices@),
{
    let mut out: Vec<u16> = Vec::new();
    let mut i: usize = 0;
    while i < indices.len()
        invariant
            i <= indices@.len(),
            fits_u16(indices@),
            out@ =~= narrowed(indices@).take(i as int),
        decreases indices@.len() - i,
    {
        out.push(indices[i] as u16);
        i += 1;
    }
    assert(out@ =~= narrowed(indices@));
    out
}

impl GltfBuilder {
    /// Positions. `grid` holds each position in steps of the grid that all meshes share, and
    /// `center` the step at the middle of this mesh; `min` and `max` bound the positions. Returns
    /// the index of the accessor, and whether the positions were written in steps from the centre.
    pub fn add_positions(
        &mut self,
        positions: &Vec<[u32; 3]>,
        grid: &Vec<[i64; 3]>,
        center: (i64, i64, i64),
        min: (u32, u32, u32),
        max: (u32, u32, u32),
    ) -> (r: (u32, bool))
        requires
            sound(old(self)@),
            grid@.len() == positions@.len(),
            can_take(old(self)@, 12 * (positions@.len() as int)),
        ensures
            final(self)@ == with_positions(old(self)@, positions@, grid@, center, min, max),
            r.0 == old(self)@.accessors.len(),
            r.1 == on_grid(grid@, center),
            sound(final(self)@),
    {
        match quantize(grid, center) {
            Some((words, bounds)) => {
                proof {
                    crate::bytes::lemma_all_bytes16(words@);
                }
                let bytes: Vec<u8> = flatten16(&words);
                let r: u32 = self.push_attribute(
                    bytes.as_slice(),
                    grid.len(),
                    8,
                    COMPONENT_TYPE_SHORT,
                    Shape::Vec3,
                    false,
                    Some(bounds),
                );
                let ghost written = self@;
                self.used_quantization = true;
                proof {
                    lemma_same_sound(written, self@);
                }
                (r, true)
            },
            None => {
                let words: Vec<u32> = flat32(positions);
                proof {
                    crate::bytes::lemma_all_bytes32(words@);
                }
                let bytes: Vec<u8> = flatten32(&words);
                let ghost before = self@;
                let r: u32 = self.push_attribute(
                    bytes.as_slice(),
                    positions.len(),
                    12,
                    COMPONENT_TYPE_FLOAT,
                    Shape::Vec3,
                    false,
                    Some(Bounds::Singles { min, max }),
                );
                let ghost written = self@;
                assert(written.float_meshes == before.float_meshes);
                assert(written.accessors.len() == before.accessors.len() + 1);
                assert(self.accessors.len() <= usize::MAX);
                self.position_float_fallback_meshes = self.position_float_fallback_meshes + 1;
                proof {
                    lemma_same_sound(written, self@);
                }
                (r, false)
            },
        }
    }

    /// Indices: of sixteen bits where they fit, and compressed where they are a list of triangles.
    /// What is written of a list decompresses to its triangles.
    pub fn add_indices(&mut self, indices: &Vec<u32>) -> (r: u32)
        requires
            sound(old(self)@),
            can_take(old(self)@, 4 * (indices@.len() as int)),
            forall|i: int| 0 <= i < indices@.len() ==> #[trigger] indices@[i] < usize::MAX,
        ensures
            final(self)@ == with_indices(old(self)@, indices@),
            r == old(self)@.accessors.len(),
            sound(final(self)@),
            is_triangle_list(indices@) && crate::codec::are_plain(indices@)
                ==> crate::codec::triangles_read_back(
                final(self)@.bin.skip(padded(old(self)@.bin, 0).len() as int),
                indices@,
            ),
    {
        let ghost start = padded(self@.bin, 0);
        let narrow_enough: bool = all_fit_u16(indices);
        let component_type: u32 = if narrow_enough {
            COMPONENT_TYPE_UNSIGNED_SHORT
        } else {
            COMPONENT_TYPE_UNSIGNED_INT
        };
        let view: u32 = if indices.len() > 0 && indices.len() % 3 == 0 {
            let greatest: u32 = find_greatest(indices);
            proof {
                lemma_greatest_is_one(indices@);
            }
            let compressed: Vec<u8> = encode_indices(indices.as_slice(), greatest as usize + 1);
            let element: usize = if narrow_enough {
                2
            } else {
                4
            };
            let view: u32 = self.push_stream(
                compressed.as_slice(),
                indices.len(),
                element,
                true,
                Some(TARGET_ELEMENT_ARRAY_BUFFER),
            );
            assert(self@.bin.skip(start.len() as int) =~= compressed@);
            view
        } else if narrow_enough {
            let bytes: Vec<u8> = flatten16(&narrow(indices));
            self.push_buffer_view(bytes.as_slice(), Some(TARGET_ELEMENT_ARRAY_BUFFER))
        } else {
            let bytes: Vec<u8> = flatten32(indices);
            self.push_buffer_view(bytes.as_slice(), Some(TARGET_ELEMENT_ARRAY_BUFFER))
        };
        self.push_accessor(
            Accessor {
                view,
                component_type,
                count: indices.len(),
                shape: Shape::Scalar,
                normalized: false,
                bounds: None,
            },
        )
    }
}

/// The greatest index is one of the indices.
proof fn lemma_greatest_is_one(indices: Seq<u32>)
    requires
        indices.len() > 0,
    ensures
        exists|i: int| 0 <= i < indices.len() && #[trigger] indices[i] == greatest_index(indices),
    decreases indices.len(),
{
    let before = indices.drop_last();
    if indices.last() > greatest_index(before) || before.len() == 0 {
        assert(indices[indices.len() - 1] == greatest_index(indices));
    } else {
        lemma_greatest_is_one(before);
        let i = choose|i: int| 0 <= i < before.len() && #[trigger] before[i] == greatest_index(
            before,
        );
        assert(indices[i] == greatest_index(indices));
    }
}

/// A document with an image more.
pub open spec fn with_image(b: BuilderView, bytes: Seq<u8>, mime_type: Seq<char>) -> BuilderView {
    let after = with_plain_view(b, bytes, None);
    BuilderView {
        images: b.images.push((b.buffer_views.len() as u32, mime_type)),
        image_bytes: b.image_bytes + bytes.len(),
        ..after
    }
}

impl GltfBuilder {
    /// Embeds an image, and returns its index.
    pub fn add_image(&mut self, bytes: &[u8], mime_type: &str) -> (r: u32)
        requires
            sound(old(self)@),
            has_space(old(self)@),
        ensures
            final(self)@ == with_image(old(self)@, bytes@, mime_type@),
            r == old(self)@.images.len(),
            sound(final(self)@),
    {
        let ghost before = self@;
        let view: u32 = self.push_buffer_view(bytes, None);
        let ghost written = self@;
        assert(self.bin.len() <= usize::MAX);
        self.image_bytes = self.image_bytes + bytes.len();
        let index: u32 = self.images.len() as u32;
        self.images.push((view, mime_type.to_owned()));
        proof {
            assert(self@.images =~= before.images.push((view, mime_type@)));
            assert forall|i: int| 0 <= i < self@.buffer_views.len() implies in_place(
                self@.bin,
                self@.fallback_bytes,
                #[trigger] self@.buffer_views[i],
            ) by {
                assert(in_place(written.bin, written.fallback_bytes, written.buffer_views[i]));
            }
            assert forall|i: int| 0 <= i < self@.images.len() implies (
            #[trigger] self@.images[i]).0 < self@.buffer_views.len() by {
                if i < before.images.len() {
                    assert(before.images[i].0 < before.buffer_views.len());
                }
            }
        }
        index
    }

    /// Adds a texture of an image, and returns its index.
    pub fn add_texture(&mut self, image_index: u32) -> (r: u32)
        requires
            sound(old(self)@),
            has_space(old(self)@),
        ensures
            final(self)@ == (BuilderView {
                textures: old(self)@.textures.push(image_index),
                ..old(self)@
            }),
            r == old(self)@.textures.len(),
            sound(final(self)@),
    {
        let ghost before = self@;
        let index: u32 = self.textures.len() as u32;
        self.textures.push(image_index);
        proof {
            lemma_same_sound(before, self@);
        }
        index
    }

    /// Adds a material, and returns its index.
    pub fn add_material(&mut self, material: Json) -> (r: u32)
        requires
            sound(old(self)@),
            has_space(old(self)@),
        ensures
            final(self)@ == (BuilderView {
                materials: old(self)@.materials.push(material@),
                ..old(self)@
            }),
            r == old(self)@.materials.len(),
            sound(final(self)@),
    {
        let ghost before = self@;
        let index: u32 = self.materials.len() as u32;
        add_item(&mut self.materials, material);
        proof {
            lemma_same_sound(before, self@);
        }
        index
    }

    /// Adds a mesh, and returns its index.
    pub fn add_mesh(&mut self, mesh: Json) -> (r: u32)
        requires
            sound(old(self)@),
            has_space(old(self)@),
        ensures
            final(self)@ == (BuilderView {
                meshes: old(self)@.meshes.push(mesh@),
                ..old(self)@
            }),
            r == old(self)@.meshes.len(),
            sound(final(self)@),
    {
        let ghost before = self@;
        let index: u32 = self.meshes.len() as u32;
        add_item(&mut self.meshes, mesh);
        proof {
            lemma_same_sound(before, self@);
        }
        index
    }

    /// Adds a node, and returns its index.
    pub fn add_node(&mut self, node: Json) -> (r: u32)
        requires
            sound(old(self)@),
            has_space(old(self)@),
        ensures
            final(self)@ == (BuilderView { nodes: old(self)@.nodes.push(node@), ..old(self)@ }),
            r == old(self)@.nodes.len(),
            sound(final(self)@),
    {
        let ghost before = self@;
        let index: u32 = self.nodes.len() as u32;
        add_item(&mut self.nodes, node);
        proof {
            lemma_same_sound(before, self@);
        }
        index
    }

    /// Whether every list can take one more item that is found by its index.
    pub fn has_space(&self) -> (r: bool)
        ensures
            r == has_space(self@),
    {
        let limit: u64 = u32::MAX as u64;
        (self.buffer_views.len() as u64) < limit && (self.accessors.len() as u64) < limit && (
        self.images.len() as u64) < limit && (self.textures.len() as u64) < limit && (
        self.materials.len() as u64) < limit && (self.meshes.len() as u64) < limit && (
        self.nodes.len() as u64) < limit
    }

    /// Whether the document can take a stream of `n` bytes.
    pub fn can_take(&self, n: usize) -> (r: bool)
        ensures
            r == can_take(self@, n as int),
    {
        self.has_space() && n <= (isize::MAX as usize) / 4 && self.fallback_bytes as u128
            + n as u128 + 3 <= usize::MAX as u128
    }

    /// How many buffer views there are.
    pub fn buffer_view_count(&self) -> (r: usize)
        ensures
            r == self@.buffer_views.len(),
    {
        self.buffer_views.len()
    }

    /// How many accessors there are.
    pub fn accessor_count(&self) -> (r: usize)
        ensures
            r == self@.accessors.len(),
    {
        self.accessors.len()
    }

    /// The length of the second buffer.
    pub fn fallback_len(&self) -> (r: usize)
        ensures
            r == self@.fallback_bytes,
    {
        self.fallback_bytes
    }

    /// How many nodes there are.
    pub fn node_count(&self) -> (r: usize)
        ensures
            r == self@.nodes.len(),
    {
        self.nodes.len()
    }

    /// How many meshes there are.
    pub fn mesh_count(&self) -> (r: usize)
        ensures
            r == self@.meshes.len(),
    {
        self.meshes.len()
    }

    /// How many materials there are.
    pub fn material_count(&self) -> (r: usize)
        ensures
            r == self@.materials.len(),
    {
        self.materials.len()
    }

    /// How many textures there are.
    pub fn texture_count(&self) -> (r: usize)
        ensures
            r == self@.textures.len(),
    {
        self.textures.len()
    }

    /// How many meshes have positions that do not fit the grid.
    pub fn position_float_fallback_meshes(&self) -> (r: usize)
        ensures
            r == self@.float_meshes,
    {
        self.position_float_fallback_meshes
    }

    /// The bytes of the binary chunk without the images.
    pub fn geometry_bytes(&self) -> (r: usize)
        requires
            sound(self@),
        ensures
            r == self@.bin.len() - self@.image_bytes,
    {
        self.bin.len() - self.image_bytes
    }

    /// The bytes of the images.
    pub fn texture_bytes(&self) -> (r: usize)
        ensures
            r == self@.image_bytes,
    {
        self.image_bytes
    }

    /// The accessor at an index.
    pub fn accessor(&self, index: u32) -> (r: Accessor)
        requires
            index < self@.accessors.len(),
        ensures
            r == self@.accessors[index as int],
    {
        self.accessors[index as usize]
    }

    /// The buffer view at an index.
    pub fn buffer_view(&self, index: u32) -> (r: BufferView)
        requires
            index < self@.buffer_views.len(),
        ensures
            r == self@.buffer_views[index as int],
    {
        self.buffer_views[index as usize]
    }
}

/// A transform as a node writes it: column by column, with a fourth row.
pub open spec fn matrix_of(t: Seq<u32>) -> Seq<u32> {
    Seq::new(
        16,
        |k: int|
            if k % 4 < 3 {
                t[4 * (k % 4) + k / 4]
            } else if k == 15 {
                F32_ONE
            } else {
                F32_ZERO
            },
    )
}

/// A transform as a node writes it.
pub fn node_matrix(t: &Transform) -> (r: [u32; 16])
    ensures
        r@ == matrix_of(t@),
        forall|i: int, j: int|
            0 <= i < 3 && 0 <= j < 4 ==> #[trigger] r@[4 * j + i] == #[trigger] t@[4 * i + j],
        r@[3] == 0 && r@[7] == 0 && r@[11] == 0 && r@[15] == 0x3F80_0000,
{
    let m: [u32; 16] = [
        t[0],
        t[4],
        t[8],
        F32_ZERO,
        t[1],
        t[5],
        t[9],
        F32_ZERO,
        t[2],
        t[6],
        t[10],
        F32_ZERO,
        t[3],
        t[7],
        t[11],
        F32_ONE,
    ];
    assert(m@ =~= matrix_of(t@));
    m
}

/// Members with one more, where there is one.
pub open spec fn also(
    s: Seq<(Seq<char>, crate::json::JsonView)>,
    key: Seq<char>,
    v: Option<crate::json::JsonView>,
) -> Seq<(Seq<char>, crate::json::JsonView)> {
    match v {
        Some(x) => s.push((key, x)),
        None => s,
    }
}

/// A count, as a document.
pub open spec fn count_json(n: int) -> crate::json::JsonView {
    crate::json::JsonView::UInt(n as u64)
}

/// An optional count.
pub open spec fn opt_count(n: Option<usize>) -> Option<crate::json::JsonView> {
    match n {
        Some(n) => Some(count_json(n as int)),
        None => None,
    }
}

/// An optional target.
pub open spec fn opt_target(n: Option<u32>) -> Option<crate::json::JsonView> {
    match n {
        Some(n) => Some(count_json(n as int)),
        None => None,
    }
}

/// Where a compressed stream is, as a document.
pub open spec fn stream_json(s: Stream) -> crate::json::JsonView {
    crate::json::JsonView::Object(
        crate::json::empty().push(
            (
                "KHR_meshopt_compression"@,
                crate::json::JsonView::Object(
                    crate::json::empty().push(("buffer"@, count_json(0))).push(
                        ("byteOffset"@, count_json(s.offset as int)),
                    ).push(("byteLength"@, count_json(s.length as int))).push(
                        ("byteStride"@, count_json(s.element as int)),
                    ).push(("count"@, count_json(s.count as int))).push(
                        (
                            "mode"@,
                            crate::json::JsonView::Str(
                                if s.triangles {
                                    "TRIANGLES"@
                                } else {
                                    "ATTRIBUTES"@
                                },
                            ),
                        ),
                    ),
                ),
            ),
        ),
    )
}

/// A buffer view, as a document.
pub open spec fn view_json(v: BufferView) -> crate::json::JsonView {
    let base = crate::json::empty().push(
        (
            "buffer"@,
            count_json(
                if v.stream is Some {
                    1
                } else {
                    0int
                },
            ),
        ),
    ).push(("byteOffset"@, count_json(v.offset as int))).push(
        ("byteLength"@, count_json(v.length as int)),
    );
    crate::json::JsonView::Object(
        also(
            also(also(base, "byteStride"@, opt_count(v.stride)), "target"@, opt_target(v.target)),
            "extensions"@,
            match v.stream {
                Some(s) => Some(stream_json(s)),
                None => None,
            },
        ),
    )
}

/// The name of a shape.
pub open spec fn shape_name(s: Shape) -> Seq<char> {
    match s {
        Shape::Scalar => "SCALAR"@,
        Shape::Vec2 => "VEC2"@,
        Shape::Vec3 => "VEC3"@,
        Shape::Vec4 => "VEC4"@,
    }
}

/// Three short integers, as a document.
pub open spec fn shorts_json(t: (i16, i16, i16)) -> crate::json::JsonView {
    crate::json::JsonView::Array(
        Seq::<crate::json::JsonView>::empty().push(
            crate::json::JsonView::Int(t.0 as i64),
        ).push(crate::json::JsonView::Int(t.1 as i64)).push(
            crate::json::JsonView::Int(t.2 as i64),
        ),
    )
}

/// Three singles, as a document.
pub open spec fn three_json(t: (u32, u32, u32)) -> crate::json::JsonView {
    crate::json::JsonView::Array(
        Seq::<crate::json::JsonView>::empty().push(crate::json::JsonView::Single(t.0)).push(
            crate::json::JsonView::Single(t.1),
        ).push(crate::json::JsonView::Single(t.2)),
    )
}

/// The lower bounds, as a document.
pub open spec fn min_json(b: Bounds) -> crate::json::JsonView {
    match b {
        Bounds::Shorts { min, .. } => shorts_json(min),
        Bounds::Singles { min, .. } => three_json(min),
    }
}

/// The upper bounds, as a document.
pub open spec fn max_json(b: Bounds) -> crate::json::JsonView {
    match b {
        Bounds::Shorts { max, .. } => shorts_json(max),
        Bounds::Singles { max, .. } => three_json(max),
    }
}

/// An accessor, as a document.
pub open spec fn accessor_json(a: Accessor) -> crate::json::JsonView {
    let base = crate::json::empty().push(("bufferView"@, count_json(a.view as int))).push(
        ("componentType"@, count_json(a.component_type as int)),
    ).push(("count"@, count_json(a.count as int))).push(
        ("type"@, crate::json::JsonView::Str(shape_name(a.shape))),
    );
    let normalized = also(
        base,
        "normalized"@,
        if a.normalized {
            Some(crate::json::JsonView::Bool(true))
        } else {
            None
        },
    );
    crate::json::JsonView::Object(
        match a.bounds {
            Some(b) => normalized.push(("min"@, min_json(b))).push(("max"@, max_json(b))),
            None => normalized,
        },
    )
}

/// Three short integers, as a document.
fn write_shorts(t: (i16, i16, i16)) -> (r: Json)
    ensures
        r@ == shorts_json(t),
{
    let mut v: Vec<Json> = Vec::new();
    assert(crate::json::json_views(v@) =~= Seq::<crate::json::JsonView>::empty());
    let x: Json = Json::Int(t.0 as i64);
    let y: Json = Json::Int(t.1 as i64);
    let z: Json = Json::Int(t.2 as i64);
    assert(x@ == crate::json::JsonView::Int(t.0 as i64));
    assert(y@ == crate::json::JsonView::Int(t.1 as i64));
    assert(z@ == crate::json::JsonView::Int(t.2 as i64));
    add_item(&mut v, x);
    add_item(&mut v, y);
    add_item(&mut v, z);
    array(v)
}

/// Three singles, as a document.
fn write_three(t: (u32, u32, u32)) -> (r: Json)
    ensures
        r@ == three_json(t),
{
    let mut v: Vec<Json> = Vec::new();
    assert(crate::json::json_views(v@) =~= Seq::<crate::json::JsonView>::empty());
    let x: Json = Json::Single(t.0);
    let y: Json = Json::Single(t.1);
    let z: Json = Json::Single(t.2);
    assert(x@ == crate::json::JsonView::Single(t.0));
    assert(y@ == crate::json::JsonView::Single(t.1));
    assert(z@ == crate::json::JsonView::Single(t.2));
    add_item(&mut v, x);
    add_item(&mut v, y);
    add_item(&mut v, z);
    array(v)
}

/// A buffer view, as a document.
fn write_view(v: &BufferView) -> (r: Json)
    ensures
        r@ == view_json(*v),
{
    let mut m: Members = Members::new();
    m.put_uint(
        "buffer",
        if v.stream.is_some() {
            1
        } else {
            0
        },
    );
    m.put_uint("byteOffset", v.offset as u64);
    m.put_uint("byteLength", v.length as u64);
    match v.stride {
        Some(n) => {
            m.put_uint("byteStride", n as u64);
        },
        None => {},
    }
    match v.target {
        Some(n) => {
            m.put_uint("target", n as u64);
        },
        None => {},
    }
    match v.stream {
        Some(s) => {
            let mut inner: Members = Members::new();
            inner.put_uint("buffer", 0);
            inner.put_uint("byteOffset", s.offset as u64);
            inner.put_uint("byteLength", s.length as u64);
            inner.put_uint("byteStride", s.element as u64);
            inner.put_uint("count", s.count as u64);
            inner.put_text(
                "mode",
                if s.triangles {
                    "TRIANGLES"
                } else {
                    "ATTRIBUTES"
                },
            );
            let mut outer: Members = Members::new();
            outer.put_object("KHR_meshopt_compression", inner);
            m.put_object("extensions", outer);
        },
        None => {},
    }
    m.object()
}

/// An accessor, as a document.
fn write_accessor(a: &Accessor) -> (r: Json)
    ensures
        r@ == accessor_json(*a),
{
    let mut m: Members = Members::new();
    m.put_uint("bufferView", a.view as u64);
    m.put_uint("componentType", a.component_type as u64);
    m.put_uint("count", a.count as u64);
    m.put_text(
        "type",
        match a.shape {
            Shape::Scalar => "SCALAR",
            Shape::Vec2 => "VEC2",
            Shape::Vec3 => "VEC3",
            Shape::Vec4 => "VEC4",
        },
    );
    if a.normalized {
        m.put_bool("normalized", true);
    }
    match a.bounds {
        Some(b) => {
            match b {
                Bounds::Shorts { min, max } => {
                    m.put("min", write_shorts(min));
                    m.put("max", write_shorts(max));
                },
                Bounds::Singles { min, max } => {
                    m.put("min", write_three(min));
                    m.put("max", write_three(max));
                },
            }
        },
        None => {},
    }
    m.object()
}

/// The documents of buffer views.
pub open spec fn views_json(v: Seq<BufferView>) -> Seq<crate::json::JsonView> {
    Seq::new(v.len(), |i: int| view_json(v[i]))
}

/// The documents of accessors.
pub open spec fn accessors_json(v: Seq<Accessor>) -> Seq<crate::json::JsonView> {
    Seq::new(v.len(), |i: int| accessor_json(v[i]))
}

/// The documents of images.
pub open spec fn images_json(v: Seq<(u32, Seq<char>)>) -> Seq<crate::json::JsonView> {
    Seq::new(
        v.len(),
        |i: int|
            crate::json::JsonView::Object(
                crate::json::empty().push(("bufferView"@, count_json(v[i].0 as int))).push(
                    ("mimeType"@, crate::json::JsonView::Str(v[i].1)),
                ),
            ),
    )
}

/// The documents of textures, all with the one sampler.
pub open spec fn textures_json(v: Seq<u32>) -> Seq<crate::json::JsonView> {
    Seq::new(
        v.len(),
        |i: int|
            crate::json::JsonView::Object(
                crate::json::empty().push(("source"@, count_json(v[i] as int))).push(
                    ("sampler"@, count_json(0)),
                ),
            ),
    )
}

/// Indices, as documents.
pub open spec fn indices_json(v: Seq<u32>) -> Seq<crate::json::JsonView> {
    Seq::new(v.len(), |i: int| count_json(v[i] as int))
}

/// The documents of buffer views.
fn write_views(v: &Vec<BufferView>) -> (r: Vec<Json>)
    ensures
        crate::json::json_views(r@) == views_json(v@),
{
    let mut out: Vec<Json> = Vec::new();
    let mut i: usize = 0;
    while i < v.len()
        invariant
            i <= v@.len(),
            crate::json::json_views(out@) =~= views_json(v@).take(i as int),
        decreases v@.len() - i,
    {
        let item: Json = write_view(&v[i]);
        assert(views_json(v@).take(i + 1) =~= views_json(v@).take(i as int).push(item@));
        add_item(&mut out, item);
        i += 1;
    }
    assert(views_json(v@).take(i as int) =~= views_json(v@));
    out
}

/// The documents of accessors.
fn write_accessors(v: &Vec<Accessor>) -> (r: Vec<Json>)
    ensures
        crate::json::json_views(r@) == accessors_json(v@),
{
    let mut out: Vec<Json> = Vec::new();
    let mut i: usize = 0;
    while i < v.len()
        invariant
            i <= v@.len(),
            crate::json::json_views(out@) =~= accessors_json(v@).take(i as int),
        decreases v@.len() - i,
    {
        let item: Json = write_accessor(&v[i]);
        assert(accessors_json(v@).take(i + 1) =~= accessors_json(v@).take(i as int).push(item@));
        add_item(&mut out, item);
        i += 1;
    }
    assert(accessors_json(v@).take(i as int) =~= accessors_json(v@));
    out
}

/// The documents of images.
fn write_images(v: &Vec<(u32, String)>) -> (r: Vec<Json>)
    ensures
        crate::json::json_views(r@) == images_json(image_views(v@)),
{
    let ghost all = images_json(image_views(v@));
    let mut out: Vec<Json> = Vec::new();
    let mut i: usize = 0;
    while i < v.len()
        invariant
            i <= v@.len(),
            all == images_json(image_views(v@)),
            crate::json::json_views(out@) =~= all.take(i as int),
        decreases v@.len() - i,
    {
        let mut m: Members = Members::new();
        m.put_uint("bufferView", v[i].0 as u64);
        m.put_text("mimeType", v[i].1.as_str());
        let item: Json = m.object();
        assert(all.take(i + 1) =~= all.take(i as int).push(item@));
        add_item(&mut out, item);
        i += 1;
    }
    assert(all.take(i as int) =~= all);
    out
}

/// The documents of textures.
fn write_textures(v: &Vec<u32>) -> (r: Vec<Json>)
    ensures
        crate::json::json_views(r@) == textures_json(v@),
{
    let mut out: Vec<Json> = Vec::new();
    let mut i: usize = 0;
    while i < v.len()
        invariant
            i <= v@.len(),
            crate::json::json_views(out@) =~= textures_json(v@).take(i as int),
        decreases v@.len() - i,
    {
        let mut m: Members = Members::new();
        m.put_uint("source", v[i] as u64);
        m.put_uint("sampler", 0);
        let item: Json = m.object();
        assert(textures_json(v@).take(i + 1) =~= textures_json(v@).take(i as int).push(item@));
        add_item(&mut out, item);
        i += 1;
    }
    assert(textures_json(v@).take(i as int) =~= textures_json(v@));
    out
}

/// Indices, as documents.
pub fn write_indices(v: &Vec<u32>) -> (r: Vec<Json>)
    ensures
        crate::json::json_views(r@) == indices_json(v@),
{
    let mut out: Vec<Json> = Vec::new();
    let mut i: usize = 0;
    while i < v.len()
        invariant
            i <= v@.len(),
            crate::json::json_views(out@) =~= indices_json(v@).take(i as int),
        decreases v@.len() - i,
    {
        let item: Json = Json::UInt(v[i] as u64);
        assert(item@ == count_json(v@[i as int] as int));
        assert(indices_json(v@).take(i + 1) =~= indices_json(v@).take(i as int).push(item@));
        add_item(&mut out, item);
        i += 1;
    }
    assert(indices_json(v@).take(i as int) =~= indices_json(v@));
    out
}

/// The extensions that a reader has to know, by what the geometry uses.
pub open spec fn required_names(b: BuilderView) -> Seq<Seq<char>> {
    let one = if b.used_quantization {
        Seq::<Seq<char>>::empty().push("KHR_mesh_quantization"@)
    } else {
        Seq::<Seq<char>>::empty()
    };
    if b.used_meshopt {
        one.push("KHR_meshopt_compression"@)
    } else {
        one
    }
}

/// A list under a key, where it is not empty.
pub open spec fn list_if_any(v: Seq<crate::json::JsonView>) -> Option<crate::json::JsonView> {
    if v.len() > 0 {
        Some(crate::json::JsonView::Array(v))
    } else {
        None
    }
}

/// The one sampler.
pub open spec fn sampler_json() -> crate::json::JsonView {
    crate::json::JsonView::Object(
        crate::json::empty().push(("magFilter"@, count_json(9729))).push(
            ("minFilter"@, count_json(9987)),
        ).push(("wrapS"@, count_json(10497))).push(("wrapT"@, count_json(10497))),
    )
}

/// A buffer, as a document.
pub open spec fn buffer_json(length: int) -> crate::json::JsonView {
    crate::json::JsonView::Object(
        crate::json::empty().push(("byteLength"@, count_json(length))),
    )
}

/// The buffers: the binary chunk, and, where there are compressed streams, the one without bytes.
pub open spec fn buffers_json(b: BuilderView) -> Seq<crate::json::JsonView> {
    let one = Seq::<crate::json::JsonView>::empty().push(buffer_json(b.bin.len() as int));
    if b.fallback_bytes > 0 {
        one.push(buffer_json(b.fallback_bytes))
    } else {
        one
    }
}

/// The root of the document. An extension that the geometry uses is required, for nothing is
/// written without it; those that the caller names are only used.
pub open spec fn root_json(
    b: BuilderView,
    roots: Seq<u32>,
    extensions: Seq<Seq<char>>,
    extras: crate::json::JsonView,
) -> crate::json::JsonView {
    let m = crate::json::empty().push(
        (
            "asset"@,
            crate::json::JsonView::Object(
                crate::json::empty().push(("version"@, crate::json::JsonView::Str("2.0"@))).push(
                    ("generator"@, crate::json::JsonView::Str("cs2mod export-glb"@)),
                ),
            ),
        ),
    );
    let m = also(
        m,
        "extensionsUsed"@,
        list_if_any(crate::json::strs(required_names(b) + extensions)),
    );
    let m = also(m, "extensionsRequired"@, list_if_any(crate::json::strs(required_names(b))));
    let m = m.push(("scene"@, count_json(0))).push(
        (
            "scenes"@,
            crate::json::JsonView::Array(
                Seq::<crate::json::JsonView>::empty().push(
                    crate::json::JsonView::Object(
                        crate::json::empty().push(
                            ("nodes"@, crate::json::JsonView::Array(indices_json(roots))),
                        ),
                    ),
                ),
            ),
        ),
    ).push(("nodes"@, crate::json::JsonView::Array(b.nodes))).push(
        ("meshes"@, crate::json::JsonView::Array(b.meshes)),
    );
    let m = also(m, "materials"@, list_if_any(b.materials));
    let m = if b.textures.len() > 0 {
        m.push(("textures"@, crate::json::JsonView::Array(textures_json(b.textures)))).push(
            ("images"@, crate::json::JsonView::Array(images_json(b.images))),
        ).push(
            (
                "samplers"@,
                crate::json::JsonView::Array(
                    Seq::<crate::json::JsonView>::empty().push(sampler_json()),
                ),
            ),
        )
    } else {
        m
    };
    crate::json::JsonView::Object(
        m.push(("accessors"@, crate::json::JsonView::Array(accessors_json(b.accessors)))).push(
            ("bufferViews"@, crate::json::JsonView::Array(views_json(b.buffer_views))),
        ).push(("buffers"@, crate::json::JsonView::Array(buffers_json(b)))).push(
            ("extras"@, extras),
        ),
    )
}

/// A buffer, as a document.
fn write_buffer(length: usize) -> (r: Json)
    ensures
        r@ == buffer_json(length as int),
{
    let mut m: Members = Members::new();
    m.put_uint("byteLength", length as u64);
    m.object()
}

/// The one sampler.
fn write_sampler() -> (r: Json)
    ensures
        r@ == sampler_json(),
{
    let mut m: Members = Members::new();
    m.put_uint("magFilter", 9729);
    m.put_uint("minFilter", 9987);
    m.put_uint("wrapS", 10497);
    m.put_uint("wrapT", 10497);
    m.object()
}

/// The buffers, as documents.
fn write_buffers(bin: usize, fallback: usize) -> (r: Vec<Json>)
    ensures
        ({
            let one = Seq::<crate::json::JsonView>::empty().push(buffer_json(bin as int));
            crate::json::json_views(r@) == if fallback > 0 {
                one.push(buffer_json(fallback as int))
            } else {
                one
            }
        }),
{
    let mut out: Vec<Json> = Vec::new();
    assert(crate::json::json_views(out@) =~= Seq::<crate::json::JsonView>::empty());
    add_item(&mut out, write_buffer(bin));
    if fallback > 0 {
        add_item(&mut out, write_buffer(fallback));
    }
    out
}

/// A list of one item.
fn only(item: Json) -> (r: Vec<Json>)
    ensures
        crate::json::json_views(r@) == Seq::<crate::json::JsonView>::empty().push(item@),
{
    let mut out: Vec<Json> = Vec::new();
    assert(crate::json::json_views(out@) =~= Seq::<crate::json::JsonView>::empty());
    add_item(&mut out, item);
    out
}

impl GltfBuilder {
    /// The extensions that a reader has to know.
    fn required(&self) -> (r: Vec<String>)
        ensures
            crate::text::texts(r@) == required_names(self@),
    {
        let mut out: Vec<String> = Vec::new();
        assert(crate::text::texts(out@) =~= Seq::<Seq<char>>::empty());
        if self.used_quantization {
            let name: String = "KHR_mesh_quantization".to_owned();
            proof {
                crate::text::lemma_texts_push(out@, name);
            }
            out.push(name);
        }
        if self.used_meshopt {
            let name: String = "KHR_meshopt_compression".to_owned();
            proof {
                crate::text::lemma_texts_push(out@, name);
            }
            out.push(name);
        }
        out
    }

    /// The document and the binary data of what was put together. The two become a file by
    /// [`frame`], once the document is written out.
    pub fn finish(self, scene_node_roots: &Vec<u32>, extensions_used: &Vec<String>, extras: Json)
        -> (r: (Json, Vec<u8>))
        ensures
            r.0@ == root_json(
                self@,
                scene_node_roots@,
                crate::text::texts(extensions_used@),
                extras@,
            ),
            r.1@ == self@.bin,
    {
        let required: Vec<String> = self.required();
        let mut used: Vec<String> = self.required();
        let mut i: usize = 0;
        let ghost names = required_names(self@);
        let ghost extensions = crate::text::texts(extensions_used@);
        assert(crate::text::texts(used@) =~= names + extensions.take(0));
        while i < extensions_used.len()
            invariant
                i <= extensions_used@.len(),
                extensions == crate::text::texts(extensions_used@),
                crate::text::texts(used@) == names + extensions.take(i as int),
            decreases extensions_used@.len() - i,
        {
            let name: String = extensions_used[i].clone();
            proof {
                crate::text::lemma_texts_push(used@, name);
                assert(names + extensions.take(i + 1) =~= (names + extensions.take(i as int)).push(
                    name@,
                ));
            }
            used.push(name);
            i += 1;
        }
        assert(extensions.take(i as int) =~= extensions);
        let mut root: Members = Members::new();
        let mut asset: Members = Members::new();
        asset.put_text("version", "2.0");
        asset.put_text("generator", "cs2mod export-glb");
        root.put_object("asset", asset);
        if used.len() > 0 {
            root.put_texts("extensionsUsed", &used);
        }
        if required.len() > 0 {
            root.put_texts("extensionsRequired", &required);
        }
        root.put_uint("scene", 0);
        let mut scene: Members = Members::new();
        scene.put_array("nodes", write_indices(scene_node_roots));
        root.put_array("scenes", only(scene.object()));
        let ghost built = self@;
        let buffers: Vec<Json> = write_buffers(self.bin.len(), self.fallback_bytes);
        root.put_array("nodes", self.nodes);
        root.put_array("meshes", self.meshes);
        if self.materials.len() > 0 {
            root.put_array("materials", self.materials);
        }
        if self.textures.len() > 0 {
            root.put_array("textures", write_textures(&self.textures));
            root.put_array("images", write_images(&self.images));
            root.put_array("samplers", only(write_sampler()));
        }
        root.put_array("accessors", write_accessors(&self.accessors));
        root.put_array("bufferViews", write_views(&self.buffer_views));
        root.put_array("buffers", buffers);
        root.put("extras", extras);
        (root.object(), self.bin)
    }
}

} // verus!
