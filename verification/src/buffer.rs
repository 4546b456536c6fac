//! Vertex and index buffers: the binary `VBIB` block and the key-value form
//! (`m_vertexBuffers`/`m_indexBuffers`). A buffer may be stored compressed, by zstd as a whole and
//! by meshoptimizer element by element; zstd is the outer layer.

use crate::bytes::{copy_of, flatten16, flatten32, read16, read32};
use crate::codec::{decode_index16, decode_index32, decode_vertices, zstd_decode};
use crate::error::{Fault, MeshError};
use crate::format::DxgiFormat;
use crate::kv::{Resource, Value};
use crate::reader::{cstr_text, OutOfBounds, Reader};
use crate::text::{eq_ignore_ascii_case, join_item, join_key, to_ascii_uppercase};
use vstd::prelude::*;

verus! {

/// One field of a vertex layout.
#[derive(Debug, Clone)]
pub struct InputLayoutField {
    /// In upper case, such as `POSITION` or `TEXCOORD`.
    pub semantic_name: String,
    pub semantic_index: i32,
    pub format: DxgiFormat,
    pub offset: u32,
}

/// An [`InputLayoutField`] with its name as a sequence of characters.
pub struct FieldView {
    pub semantic_name: Seq<char>,
    pub semantic_index: i32,
    pub format: DxgiFormat,
    pub offset: u32,
}

impl View for InputLayoutField {
    type V = FieldView;

    open spec fn view(&self) -> FieldView {
        FieldView {
            semantic_name: self.semantic_name@,
            semantic_index: self.semantic_index,
            format: self.format,
            offset: self.offset,
        }
    }
}

/// How a buffer's bytes were compressed, which the flags alone do not say: a buffer stored at full
/// size is not compressed, whatever its flags.
#[derive(Debug, Clone, Copy, PartialEq, Eq, Structural)]
pub struct Compression {
    pub zstd: bool,
    pub meshopt: bool,
    /// The first byte of the meshoptimizer stream, which tells its kind and version.
    pub meshopt_header: Option<u8>,
}

impl Default for Compression {
    fn default() -> (r: Compression)
        ensures
            r == uncompressed(),
    {
        Compression { zstd: false, meshopt: false, meshopt_header: None }
    }
}

/// No compression.
pub open spec fn uncompressed() -> Compression {
    Compression { zstd: false, meshopt: false, meshopt_header: None }
}

/// A decompressed vertex or index buffer.
#[derive(Debug, Clone)]
pub struct Buffer {
    pub element_count: u32,
    /// The stride of a vertex buffer, the index size (2 or 4) of an index buffer.
    pub element_size: u32,
    /// Empty for index buffers.
    pub fields: Vec<InputLayoutField>,
    /// The elements, one after the other.
    pub data: Vec<u8>,
    pub compression: Compression,
}

/// A [`Buffer`] as plain sequences.
pub struct BufferView {
    pub element_count: u32,
    pub element_size: u32,
    pub fields: Seq<FieldView>,
    pub data: Seq<u8>,
    pub compression: Compression,
}

/// The views of a list of fields.
pub open spec fn field_views(fields: Seq<InputLayoutField>) -> Seq<FieldView> {
    Seq::new(fields.len(), |i: int| fields[i]@)
}

impl View for Buffer {
    type V = BufferView;

    open spec fn view(&self) -> BufferView {
        BufferView {
            element_count: self.element_count,
            element_size: self.element_size,
            fields: field_views(self.fields@),
            data: self.data@,
            compression: self.compression,
        }
    }
}

/// The views of a list of buffers.
pub open spec fn buffer_views(buffers: Seq<Buffer>) -> Seq<BufferView> {
    Seq::new(buffers.len(), |i: int| buffers[i]@)
}

/// A buffer holds exactly the elements that it declares.
pub open spec fn complete(b: BufferView) -> bool {
    b.data.len() == b.element_count * b.element_size
}

/// The first field from `from` on with this index and, whatever its case, this name.
pub open spec fn field_from(
    fields: Seq<InputLayoutField>,
    name: Seq<char>,
    index: i32,
    from: int,
) -> Option<InputLayoutField>
    decreases fields.len() - from,
{
    if from < 0 || from >= fields.len() {
        None
    } else if fields[from].semantic_index == index && crate::text::same_ignoring_case(
        fields[from].semantic_name@,
        name,
    ) {
        Some(fields[from])
    } else {
        field_from(fields, name, index, from + 1)
    }
}

/// The index stored as element `i`, where the elements are 2 or 4 bytes and there are that many.
pub open spec fn stored_index(data: Seq<u8>, size: int, i: int) -> Option<u32> {
    if size == 2 && 2 * i + 2 <= data.len() {
        Some(crate::bytes::le16(data, 2 * i) as u32)
    } else if size == 4 && 4 * i + 4 <= data.len() {
        Some(crate::bytes::le32(data, 4 * i) as u32)
    } else {
        None
    }
}

impl Buffer {
    /// The first field with this name, whatever its case, and index.
    pub fn field(&self, semantic_name: &str, semantic_index: i32) -> (r: Option<&InputLayoutField>)
        ensures
            match r {
                Some(f) => field_from(self.fields@, semantic_name@, semantic_index, 0) == Some(*f),
                None => field_from(self.fields@, semantic_name@, semantic_index, 0) is None,
            },
    {
        let mut i: usize = 0;
        while i < self.fields.len()
            invariant
                i <= self.fields@.len(),
                field_from(self.fields@, semantic_name@, semantic_index, 0) == field_from(
                    self.fields@,
                    semantic_name@,
                    semantic_index,
                    i as int,
                ),
            decreases self.fields@.len() - i,
        {
            if self.fields[i].semantic_index == semantic_index && eq_ignore_ascii_case(
                self.fields[i].semantic_name.as_str(),
                semantic_name,
            ) {
                return Some(&self.fields[i]);
            }
            i += 1;
        }
        None
    }

    /// The index stored as element `i`; `None` past the end, and when the elements are neither 2
    /// nor 4 bytes.
    pub fn index_at(&self, i: usize) -> (r: Option<u32>)
        ensures
            r == stored_index(self.data@, self.element_size as int, i as int),
    {
        let data: &[u8] = self.data.as_slice();
        if self.element_size == 2 {
            if i < data.len() / 2 {
                Some(read16(data, 2 * i) as u32)
            } else {
                None
            }
        } else if self.element_size == 4 {
            if i < data.len() / 4 {
                Some(read32(data, 4 * i))
            } else {
                None
            }
        } else {
            None
        }
    }
}

/// The largest buffer that is taken for real.
pub const MAX_BUFFER_BYTES: u64 = 0x4000_0000;

/// The size of `count` elements of `size` bytes, within the limit.
pub open spec fn buffer_size(count: u32, size: u32, path: Seq<char>) -> Result<usize, Fault> {
    if count * size > MAX_BUFFER_BYTES {
        Err(
            Fault::SizeTooLarge {
                path,
                count: count as u64,
                size: size as u64,
                limit: MAX_BUFFER_BYTES,
            },
        )
    } else {
        Ok((count * size) as usize)
    }
}

/// The size of `count` elements of `size` bytes; an error beyond the limit.
pub fn checked_size(count: u32, size: u32, path: &str) -> (r: Result<usize, MeshError>)
    ensures
        match r {
            Ok(n) => buffer_size(count, size, path@) == Ok::<usize, Fault>(n) && n == count * size
                && n <= MAX_BUFFER_BYTES,
            Err(e) => buffer_size(count, size, path@) == Err::<usize, Fault>(crate::error::known(e@)),
        },
{
    assert(count * size <= 0xFFFF_FFFF * 0xFFFF_FFFF) by (nonlinear_arith)
        requires
            count <= 0xFFFF_FFFF,
            size <= 0xFFFF_FFFF,
    ;
    let bytes: u64 = (count as u64) * (size as u64);
    if bytes > MAX_BUFFER_BYTES {
        return Err(
            MeshError::SizeTooLarge {
                path: path.to_owned(),
                count: count as u64,
                size: size as u64,
                limit: MAX_BUFFER_BYTES,
            },
        );
    }
    Ok(bytes as usize)
}

/// The error of a layout that meshoptimizer does not take.
pub open spec fn bad_layout(count: int, size: int, path: Seq<char>) -> Fault {
    Fault::MeshoptLayout { path, element_count: count as u64, element_size: size as u64 }
}

/// Refuses an index count that is not a multiple of three, which meshoptimizer requires.
pub fn check_meshopt_index_layout(element_count: usize, element_size: usize, path: &str) -> (r:
    Result<(), MeshError>)
    ensures
        match r {
            Ok(_) => element_count % 3 == 0,
            Err(e) => element_count % 3 != 0 && e@ == bad_layout(
                element_count as int,
                element_size as int,
                path@,
            ),
        },
{
    if element_count % 3 != 0 {
        return Err(
            MeshError::MeshoptLayout {
                path: path.to_owned(),
                element_count: element_count as u64,
                element_size: element_size as u64,
            },
        );
    }
    Ok(())
}

/// Refuses a stride that is not a multiple of four in `4..=256`, which meshoptimizer requires.
pub fn check_meshopt_vertex_layout(element_count: usize, element_size: usize, path: &str) -> (r:
    Result<(), MeshError>)
    ensures
        match r {
            Ok(_) => crate::codec::valid_stride(element_size as int),
            Err(e) => !crate::codec::valid_stride(element_size as int) && e@ == bad_layout(
                element_count as int,
                element_size as int,
                path@,
            ),
        },
{
    if element_size == 0 || element_size > 256 || element_size % 4 != 0 {
        return Err(
            MeshError::MeshoptLayout {
                path: path.to_owned(),
                element_count: element_count as u64,
                element_size: element_size as u64,
            },
        );
    }
    Ok(())
}

/// The bytes of a meshoptimizer index stream.
pub open spec fn index_bytes(data: Seq<u8>, count: usize, size: usize, path: Seq<char>) -> Result<
    Seq<u8>,
    Fault,
> {
    if count % 3 != 0 {
        Err(bad_layout(count as int, size as int, path))
    } else if size == 2 {
        match crate::codec::index_stream16(data, count as nat) {
            Ok(v) => Ok(crate::bytes::all_bytes16(v)),
            Err(message) => Err(Fault::MeshoptIndex { path, message }),
        }
    } else if size == 4 {
        match crate::codec::index_stream32(data, count as nat) {
            Ok(v) => Ok(crate::bytes::all_bytes32(v)),
            Err(message) => Err(Fault::MeshoptIndex { path, message }),
        }
    } else {
        Err(Fault::BadIndexElementSize { path, size: size as u32 })
    }
}

/// The bytes of a meshoptimizer vertex stream. The code of a refusal is left open.
pub open spec fn vertex_bytes(data: Seq<u8>, count: usize, size: usize, path: Seq<char>) -> Result<
    Seq<u8>,
    Fault,
> {
    if !crate::codec::valid_stride(size as int) {
        Err(bad_layout(count as int, size as int, path))
    } else {
        match crate::codec::vertex_stream(data, count as nat, size as nat) {
            Some(v) => Ok(v),
            None => Err(Fault::MeshoptVertex { path, code: None }),
        }
    }
}

/// The bytes of a meshoptimizer stream.
pub open spec fn stream_bytes(
    data: Seq<u8>,
    count: usize,
    size: usize,
    is_vertex: bool,
    path: Seq<char>,
) -> Result<Seq<u8>, Fault> {
    if is_vertex {
        vertex_bytes(data, count, size, path)
    } else {
        index_bytes(data, count, size, path)
    }
}

/// Decodes a meshoptimizer index stream to little-endian indices.
pub fn meshopt_decode_index(
    data: &[u8],
    element_count: usize,
    element_size: usize,
    path: &str,
) -> (r: Result<Vec<u8>, MeshError>)
    requires
        element_count * element_size <= isize::MAX,
    ensures
        crate::error::outcome(r) == index_bytes(data@, element_count, element_size, path@),
        r matches Ok(v) ==> v@.len() == element_count * element_size,
{
    match check_meshopt_index_layout(element_count, element_size, path) {
        Ok(_) => {},
        Err(e) => {
            return Err(e);
        },
    }
    if element_size == 2 {
        match decode_index16(data, element_count) {
            Ok(v) => {
                proof {
                    crate::bytes::lemma_all_bytes16(v@);
                }
                Ok(flatten16(&v))
            },
            Err(message) => Err(MeshError::MeshoptIndex { path: path.to_owned(), message }),
        }
    } else if element_size == 4 {
        match decode_index32(data, element_count) {
            Ok(v) => {
                proof {
                    crate::bytes::lemma_all_bytes32(v@);
                }
                Ok(flatten32(&v))
            },
            Err(message) => Err(MeshError::MeshoptIndex { path: path.to_owned(), message }),
        }
    } else {
        Err(MeshError::BadIndexElementSize { path: path.to_owned(), size: element_size as u32 })
    }
}

/// Decodes a meshoptimizer vertex stream.
pub fn meshopt_decode_vertex(
    data: &[u8],
    element_count: usize,
    element_size: usize,
    path: &str,
) -> (r: Result<Vec<u8>, MeshError>)
    requires
        element_count * element_size <= isize::MAX,
    ensures
        crate::error::outcome(r) == vertex_bytes(data@, element_count, element_size, path@),
        r matches Ok(v) ==> v@.len() == element_count * element_size,
        r matches Err(MeshError::MeshoptVertex { path: _, code }) ==> code != 0,
{
    match check_meshopt_vertex_layout(element_count, element_size, path) {
        Ok(_) => {},
        Err(e) => {
            return Err(e);
        },
    }
    match decode_vertices(data, element_count, element_size) {
        Ok(v) => Ok(v),
        Err(code) => Err(MeshError::MeshoptVertex { path: path.to_owned(), code }),
    }
}

/// Decodes a meshoptimizer stream of either kind.
pub fn meshopt_decode(
    data: &[u8],
    element_count: usize,
    element_size: usize,
    is_vertex: bool,
    path: &str,
) -> (r: Result<Vec<u8>, MeshError>)
    requires
        element_count * element_size <= isize::MAX,
    ensures
        crate::error::outcome(r) == stream_bytes(
            data@,
            element_count,
            element_size,
            is_vertex,
            path@,
        ),
        r matches Ok(v) ==> v@.len() == element_count * element_size,
{
    if is_vertex {
        meshopt_decode_vertex(data, element_count, element_size, path)
    } else {
        meshopt_decode_index(data, element_count, element_size, path)
    }
}

/// The zstd layer taken off, into at most `room` bytes.
pub open spec fn unzipped(stored: Seq<u8>, room: usize, is_zstd: bool, path: Seq<char>) -> Result<
    Seq<u8>,
    Fault,
> {
    if is_zstd {
        match crate::codec::zstd_frames(stored, room as nat) {
            Ok(v) => Ok(v),
            Err(message) => Err(Fault::Zstd { path, message }),
        }
    } else {
        Ok(stored)
    }
}

/// Decodes a zstd frame into at most `max_size` bytes.
pub fn zstd_decode_bounded(input: &[u8], max_size: usize, path: &str) -> (r: Result<
    Vec<u8>,
    MeshError,
>)
    requires
        max_size <= isize::MAX,
    ensures
        crate::error::outcome(r) == unzipped(input@, max_size, true, path@),
        r matches Ok(v) ==> v@.len() <= max_size,
{
    match zstd_decode(input, max_size) {
        Ok(v) => Ok(v),
        Err(message) => Err(MeshError::Zstd { path: path.to_owned(), message }),
    }
}

/// The first byte, where there is one.
pub open spec fn first_byte(s: Seq<u8>) -> Option<u8> {
    if s.len() > 0 {
        Some(s[0])
    } else {
        None
    }
}

/// The bytes of a stored buffer, and how they were compressed. Bytes stored at full size are taken
/// as they are, whatever the flags say, and more than that is an error; fewer are decompressed.
pub open spec fn decoded_buffer(
    stored: Seq<u8>,
    count: u32,
    size: u32,
    is_vertex: bool,
    is_zstd: bool,
    is_meshopt: bool,
    path: Seq<char>,
) -> Result<(Seq<u8>, Compression), Fault> {
    match buffer_size(count, size, path) {
        Err(f) => Err(f),
        Ok(full) => if stored.len() > full {
            Err(
                Fault::LengthMismatch { path, actual: stored.len() as usize, expected: full },
            )
        } else if stored.len() == full {
            Ok((stored, uncompressed()))
        } else {
            match unzipped(stored, full, is_zstd, path) {
                Err(f) => Err(f),
                Ok(inner) => if is_meshopt {
                    match stream_bytes(inner, count as usize, size as usize, is_vertex, path) {
                        Err(f) => Err(f),
                        Ok(data) => Ok(
                            (
                                data,
                                Compression {
                                    zstd: is_zstd,
                                    meshopt: true,
                                    meshopt_header: first_byte(inner),
                                },
                            ),
                        ),
                    }
                } else if inner.len() == full {
                    Ok(
                        (
                            inner,
                            Compression { zstd: is_zstd, meshopt: false, meshopt_header: None },
                        ),
                    )
                } else {
                    Err(
                        Fault::LengthMismatch {
                            path,
                            actual: inner.len() as usize,
                            expected: full,
                        },
                    )
                },
            }
        },
    }
}

/// What [`decode_buffer_bytes`] gave back, as plain values.
pub open spec fn decoded_outcome(r: Result<(Vec<u8>, Compression), MeshError>) -> Result<
    (Seq<u8>, Compression),
    Fault,
> {
    match r {
        Ok(p) => Ok((p.0@, p.1)),
        Err(e) => Err(crate::error::known(e@)),
    }
}

/// Takes the compression off a stored buffer.
pub fn decode_buffer_bytes(
    stored: &[u8],
    element_count: u32,
    element_size: u32,
    is_vertex: bool,
    is_zstd: bool,
    is_meshopt: bool,
    path: &str,
) -> (r: Result<(Vec<u8>, Compression), MeshError>)
    ensures
        decoded_outcome(r) == decoded_buffer(
            stored@,
            element_count,
            element_size,
            is_vertex,
            is_zstd,
            is_meshopt,
            path@,
        ),
        r matches Ok(p) ==> p.0@.len() == element_count * element_size,
{
    let full: usize = match checked_size(element_count, element_size, path) {
        Ok(n) => n,
        Err(e) => {
            return Err(e);
        },
    };
    if stored.len() >= full {
        if stored.len() != full {
            return Err(
                MeshError::LengthMismatch {
                    path: path.to_owned(),
                    actual: stored.len(),
                    expected: full,
                },
            );
        }
        return Ok((copy_of(stored), Compression::default()));
    }
    let inner: Vec<u8> = if is_zstd {
        match zstd_decode_bounded(stored, full, path) {
            Ok(v) => v,
            Err(e) => {
                return Err(e);
            },
        }
    } else {
        copy_of(stored)
    };
    if is_meshopt {
        match meshopt_decode(
            inner.as_slice(),
            element_count as usize,
            element_size as usize,
            is_vertex,
            path,
        ) {
            Ok(data) => {
                let header: Option<u8> = if inner.len() > 0 {
                    Some(inner[0])
                } else {
                    None
                };
                Ok((data, Compression { zstd: is_zstd, meshopt: true, meshopt_header: header }))
            },
            Err(e) => Err(e),
        }
    } else if inner.len() == full {
        Ok((inner, Compression { zstd: is_zstd, meshopt: false, meshopt_header: None }))
    } else {
        Err(
            MeshError::LengthMismatch {
                path: path.to_owned(),
                actual: inner.len(),
                expected: full,
            },
        )
    }
}

// The binary block.

/// The place `offset` bytes behind `base`, held to the largest address.
pub open spec fn landing(base: int, offset: int) -> int {
    if base + offset <= usize::MAX {
        base + offset
    } else {
        usize::MAX as int
    }
}

/// The `n` 32-bit numbers from `pos` on, up to the first that does not fit.
pub open spec fn words_at(data: Seq<u8>, pos: int, n: nat) -> Result<Seq<u32>, OutOfBounds>
    decreases n,
{
    if n == 0 {
        Ok(Seq::empty())
    } else {
        match words_at(data, pos, (n - 1) as nat) {
            Err(e) => Err(e),
            Ok(before) => match crate::reader::word_at(data, pos + 4 * (n - 1)) {
                Err(e) => Err(e),
                Ok(w) => Ok(before.push(w)),
            },
        }
    }
}

/// A number that does not fit stays the answer however many follow.
proof fn lemma_words_refused(data: Seq<u8>, pos: int, k: nat, n: nat)
    requires
        k <= n,
        words_at(data, pos, k) is Err,
    ensures
        words_at(data, pos, n) == words_at(data, pos, k),
    decreases n - k,
{
    if k < n {
        lemma_words_refused(data, pos, k, (n - 1) as nat);
    }
}

/// Reads `n` 32-bit numbers.
fn read_words(r: &mut Reader, n: usize) -> (w: Result<Vec<u32>, OutOfBounds>)
    ensures
        final(r).data() == old(r).data(),
        match w {
            Ok(v) => words_at(old(r).data(), old(r).at(), n as nat) == Ok::<Seq<u32>, OutOfBounds>(
                v@,
            ) && v@.len() == n && final(r).at() == old(r).at() + 4 * n,
            Err(e) => words_at(old(r).data(), old(r).at(), n as nat) == Err::<
                Seq<u32>,
                OutOfBounds,
            >(e),
        },
        w is Ok && n > 0 ==> final(r).at() <= old(r).data().len(),
{
    let mut out: Vec<u32> = Vec::new();
    let ghost d = r.data();
    let ghost p = r.at();
    let mut i: usize = 0;
    while i < n
        invariant
            i <= n,
            r.data() == d,
            d == old(r).data(),
            p == old(r).at(),
            r.at() == p + 4 * i,
            out@.len() == i,
            words_at(d, p, i as nat) == Ok::<Seq<u32>, OutOfBounds>(out@),
            i > 0 ==> r.at() <= d.len(),
        decreases n - i,
    {
        match r.u32() {
            Ok(w) => {
                out.push(w);
            },
            Err(e) => {
                proof {
                    assert(words_at(d, p, (i + 1) as nat) == Err::<Seq<u32>, OutOfBounds>(e));
                    lemma_words_refused(d, p, (i + 1) as nat, n as nat);
                }
                return Err(e);
            },
        }
        i += 1;
    }
    Ok(out)
}

/// The layout field stored at `pos`: a name slot and six numbers, of which three are kept.
pub open spec fn field_at(data: Seq<u8>, pos: int, path: Seq<char>) -> Result<FieldView, Fault> {
    if !crate::reader::readable(data, pos, 32) {
        Err(Fault::Truncated { path, source: crate::reader::beyond(data, pos, 32) })
    } else {
        match words_at(data, pos + 32, 6) {
            Err(source) => Err(Fault::Truncated { path, source }),
            Ok(w) => Ok(
                FieldView {
                    semantic_name: crate::text::ascii_uppered(
                        crate::reader::slot_text(data.subrange(pos, pos + 32)),
                    ),
                    semantic_index: crate::bytes::as_signed32(w[0] as int) as i32,
                    format: crate::format::format_of(w[1]),
                    offset: w[2],
                },
            ),
        }
    }
}

/// The fields of a layout, each 56 bytes behind the one before.
pub open spec fn field_step(data: Seq<u8>, pos: int, path: Seq<char>) -> spec_fn(int) -> Result<
    FieldView,
    Fault,
> {
    |i: int| field_at(data, pos + 56 * i, crate::text::item_path(path, "field"@, i))
}

/// Reads one layout field.
fn read_field(r: &mut Reader, path: &str) -> (f: Result<InputLayoutField, MeshError>)
    ensures
        final(r).data() == old(r).data(),
        crate::error::outcome(f) == field_at(old(r).data(), old(r).at(), path@),
        f is Ok ==> final(r).at() == old(r).at() + 56 && final(r).at() <= old(r).data().len(),
{
    let name: String = match r.fixed_cstr(32) {
        Ok(n) => n,
        Err(source) => {
            return Err(MeshError::Truncated { path: path.to_owned(), source });
        },
    };
    let w: Vec<u32> = match read_words(r, 6) {
        Ok(w) => w,
        Err(source) => {
            return Err(MeshError::Truncated { path: path.to_owned(), source });
        },
    };
    Ok(
        InputLayoutField {
            semantic_name: to_ascii_uppercase(name.as_str()),
            semantic_index: crate::bytes::signed32(w[0]),
            format: DxgiFormat::from_raw(w[1]),
            offset: w[2],
        },
    )
}

/// Reads `n` layout fields.
fn read_fields(r: &mut Reader, n: u32, path: &str) -> (f: Result<Vec<InputLayoutField>, MeshError>)
    ensures
        final(r).data() == old(r).data(),
        match f {
            Ok(v) => crate::error::gather(
                field_step(old(r).data(), old(r).at(), path@),
                n as nat,
            ) == Ok::<Seq<FieldView>, Fault>(field_views(v@)),
            Err(e) => crate::error::gather(
                field_step(old(r).data(), old(r).at(), path@),
                n as nat,
            ) == Err::<Seq<FieldView>, Fault>(crate::error::known(e@)),
        },
{
    let mut out: Vec<InputLayoutField> = Vec::new();
    let ghost d = r.data();
    let ghost p = r.at();
    let ghost step = field_step(d, p, path@);
    let mut i: u32 = 0;
    assert(field_views(out@) =~= Seq::<FieldView>::empty());
    while i < n
        invariant
            i <= n,
            r.data() == d,
            d == old(r).data(),
            p == old(r).at(),
            step == field_step(d, p, path@),
            r.at() == p + 56 * i,
            crate::error::gather(step, i as nat) == Ok::<Seq<FieldView>, Fault>(field_views(out@)),
        decreases n - i,
    {
        let at: String = join_item(path, "field", i as usize);
        match read_field(r, at.as_str()) {
            Ok(f) => {
                proof {
                    assert(field_views(out@.push(f)) =~= field_views(out@).push(f@));
                }
                out.push(f);
            },
            Err(e) => {
                proof {
                    assert(step(i as int) == Err::<FieldView, Fault>(crate::error::known(e@)));
                    crate::error::lemma_gather_refused(step, (i + 1) as nat, n as nat);
                }
                return Err(e);
            },
        }
        i += 1;
    }
    Ok(out)
}

/// The element size in the low 26 bits of a size word.
pub open spec fn size_bits(word: u32) -> u32 {
    word % 0x400_0000
}

/// Bit 26 clear says meshoptimizer.
pub open spec fn says_meshopt(word: u32) -> bool {
    word / 0x400_0000 % 2 == 0
}

/// Bit 27 set says zstd.
pub open spec fn says_zstd(word: u32) -> bool {
    word / 0x800_0000 % 2 == 1
}

/// The buffer whose 24-byte entry stands at `pos`. The entry holds the element count, a size word
/// with the compression flags, and the places and sizes of the layout and of the stored bytes, each
/// place counted from where it is written.
pub open spec fn entry_at(data: Seq<u8>, pos: int, is_vertex: bool, path: Seq<char>) -> Result<
    BufferView,
    Fault,
> {
    match words_at(data, pos, 6) {
        Err(source) => Err(Fault::Truncated { path, source }),
        Ok(w) => {
            let total = crate::bytes::as_signed32(w[5] as int);
            let fields_at = landing(pos + 8, w[2] as int);
            let stored_at = landing(pos + 16, w[4] as int);
            if total < 0 {
                Err(Fault::WrongType { path, expected: "non-negative total size"@ })
            } else {
                match crate::error::gather(field_step(data, fields_at, path), w[3] as nat) {
                    Err(f) => Err(f),
                    Ok(fields) => if !crate::reader::readable(data, stored_at, total) {
                        Err(
                            Fault::Truncated {
                                path,
                                source: crate::reader::beyond(data, stored_at, total),
                            },
                        )
                    } else {
                        match decoded_buffer(
                            data.subrange(stored_at, stored_at + total),
                            w[0],
                            size_bits(w[1]),
                            is_vertex,
                            says_zstd(w[1]),
                            says_meshopt(w[1]),
                            path,
                        ) {
                            Err(f) => Err(f),
                            Ok(p) => Ok(
                                BufferView {
                                    element_count: w[0],
                                    element_size: size_bits(w[1]),
                                    fields,
                                    data: p.0,
                                    compression: p.1,
                                },
                            ),
                        }
                    },
                }
            }
        },
    }
}

/// Reads one buffer entry, and the layout and bytes that it points at.
pub fn read_on_disk_buffer_data(r: &mut Reader, is_vertex: bool, path: &str) -> (b: Result<
    Buffer,
    MeshError,
>)
    ensures
        final(r).data() == old(r).data(),
        crate::error::outcome(b) == entry_at(old(r).data(), old(r).at(), is_vertex, path@),
        b is Ok ==> final(r).at() == old(r).at() + 24 && final(r).at() <= old(r).data().len(),
        b matches Ok(v) ==> complete(v@),
{
    let start: usize = r.pos();
    let w: Vec<u32> = match read_words(r, 6) {
        Ok(w) => w,
        Err(source) => {
            return Err(MeshError::Truncated { path: path.to_owned(), source });
        },
    };
    let end: usize = r.pos();
    assert(end == start + 24);
    let element_count: u32 = w[0];
    let element_size: u32 = w[1] % 0x400_0000;
    let is_meshopt: bool = w[1] / 0x400_0000 % 2 == 0;
    let is_zstd: bool = w[1] / 0x800_0000 % 2 == 1;
    let total: i32 = crate::bytes::signed32(w[5]);
    if total < 0 {
        return Err(
            MeshError::WrongType { path: path.to_owned(), expected: "non-negative total size" },
        );
    }
    let fields_at: usize = (start + 8).saturating_add(w[2] as usize);
    r.set_pos(fields_at);
    let fields: Vec<InputLayoutField> = match read_fields(r, w[3], path) {
        Ok(f) => f,
        Err(e) => {
            return Err(e);
        },
    };
    let stored_at: usize = (start + 16).saturating_add(w[4] as usize);
    r.set_pos(stored_at);
    let stored: &[u8] = match r.bytes(total as usize) {
        Ok(s) => s,
        Err(source) => {
            return Err(MeshError::Truncated { path: path.to_owned(), source });
        },
    };
    match decode_buffer_bytes(
        stored,
        element_count,
        element_size,
        is_vertex,
        is_zstd,
        is_meshopt,
        path,
    ) {
        Ok(pair) => {
            r.set_pos(end);
            Ok(
                Buffer {
                    element_count,
                    element_size,
                    fields,
                    data: pair.0,
                    compression: pair.1,
                },
            )
        },
        Err(e) => Err(e),
    }
}

/// The buffers of one table, each entry 24 bytes behind the one before.
pub open spec fn entry_step(data: Seq<u8>, pos: int, is_vertex: bool, kind: Seq<char>) -> spec_fn(
    int,
) -> Result<BufferView, Fault> {
    |i: int|
        entry_at(data, pos + 24 * i, is_vertex, crate::text::item_path("VBIB"@, kind, i))
}

/// Reads the `n` buffers of one table.
fn read_entries(r: &mut Reader, n: u32, is_vertex: bool, kind: &str) -> (b: Result<
    Vec<Buffer>,
    MeshError,
>)
    ensures
        final(r).data() == old(r).data(),
        match b {
            Ok(v) => crate::error::gather(
                entry_step(old(r).data(), old(r).at(), is_vertex, kind@),
                n as nat,
            ) == Ok::<Seq<BufferView>, Fault>(buffer_views(v@)),
            Err(e) => crate::error::gather(
                entry_step(old(r).data(), old(r).at(), is_vertex, kind@),
                n as nat,
            ) == Err::<Seq<BufferView>, Fault>(crate::error::known(e@)),
        },
        b matches Ok(v) ==> forall|i: int| 0 <= i < v@.len() ==> complete((#[trigger] v@[i])@),
{
    let mut out: Vec<Buffer> = Vec::new();
    let ghost d = r.data();
    let ghost p = r.at();
    let ghost step = entry_step(d, p, is_vertex, kind@);
    let mut i: u32 = 0;
    assert(buffer_views(out@) =~= Seq::<BufferView>::empty());
    while i < n
        invariant
            i <= n,
            r.data() == d,
            d == old(r).data(),
            p == old(r).at(),
            step == entry_step(d, p, is_vertex, kind@),
            r.at() == p + 24 * i,
            crate::error::gather(step, i as nat) == Ok::<Seq<BufferView>, Fault>(
                buffer_views(out@),
            ),
            forall|j: int| 0 <= j < out@.len() ==> complete((#[trigger] out@[j])@),
        decreases n - i,
    {
        let at: String = join_item("VBIB", kind, i as usize);
        match read_on_disk_buffer_data(r, is_vertex, at.as_str()) {
            Ok(b) => {
                proof {
                    assert(buffer_views(out@.push(b)) =~= buffer_views(out@).push(b@));
                }
                out.push(b);
            },
            Err(e) => {
                proof {
                    assert(step(i as int) == Err::<BufferView, Fault>(crate::error::known(e@)));
                    crate::error::lemma_gather_refused(step, (i + 1) as nat, n as nat);
                }
                return Err(e);
            },
        }
        i += 1;
    }
    Ok(out)
}

/// The vertex and index buffers of a binary block: two places and counts, the first place counted
/// from the start of the block and the second from the third number.
pub open spec fn vbib_block(data: Seq<u8>) -> Result<(Seq<BufferView>, Seq<BufferView>), Fault> {
    match words_at(data, 0, 4) {
        Err(source) => Err(Fault::Truncated { path: "VBIB"@, source }),
        Ok(w) => match crate::error::gather(
            entry_step(data, w[0] as int, true, "vertex"@),
            w[1] as nat,
        ) {
            Err(f) => Err(f),
            Ok(vertex) => match crate::error::gather(
                entry_step(data, landing(8, w[2] as int), false, "index"@),
                w[3] as nat,
            ) {
                Err(f) => Err(f),
                Ok(index) => Ok((vertex, index)),
            },
        },
    }
}

/// What a decoder of vertex and index buffers gave back, as plain values.
pub open spec fn buffers_outcome(r: Result<(Vec<Buffer>, Vec<Buffer>), MeshError>) -> Result<
    (Seq<BufferView>, Seq<BufferView>),
    Fault,
> {
    match r {
        Ok(p) => Ok((buffer_views(p.0@), buffer_views(p.1@))),
        Err(e) => Err(crate::error::known(e@)),
    }
}

/// Every buffer of a list holds exactly the elements that it declares.
pub open spec fn all_complete(buffers: Seq<Buffer>) -> bool {
    forall|i: int| 0 <= i < buffers.len() ==> complete((#[trigger] buffers[i])@)
}

/// Decodes a binary block into its vertex and index buffers.
pub fn parse_vbib_block(bytes: &[u8]) -> (r: Result<(Vec<Buffer>, Vec<Buffer>), MeshError>)
    ensures
        buffers_outcome(r) == vbib_block(bytes@),
        r matches Ok(p) ==> all_complete(p.0@) && all_complete(p.1@),
{
    let mut r: Reader = Reader::new(bytes);
    let w: Vec<u32> = match read_words(&mut r, 4) {
        Ok(w) => w,
        Err(source) => {
            return Err(MeshError::Truncated { path: "VBIB".to_owned(), source });
        },
    };
    r.set_pos(w[0] as usize);
    let vertex: Vec<Buffer> = match read_entries(&mut r, w[1], true, "vertex") {
        Ok(v) => v,
        Err(e) => {
            return Err(e);
        },
    };
    r.set_pos(8usize.saturating_add(w[2] as usize));
    let index: Vec<Buffer> = match read_entries(&mut r, w[3], false, "index") {
        Ok(v) => v,
        Err(e) => {
            return Err(e);
        },
    };
    Ok((vertex, index))
}

// The key-value form.

/// The list in `v`.
pub open spec fn required_items(v: Value, path: Seq<char>) -> Result<Seq<Value>, Fault> {
    match crate::kv::items_of(v) {
        Some(items) => Ok(items),
        None => Err(Fault::WrongType { path, expected: "array"@ }),
    }
}

/// The list in `v`; an error where it is no list.
pub fn require_array<'a>(v: &'a Value, path: &str) -> (r: Result<&'a Vec<Value>, MeshError>)
    ensures
        match r {
            Ok(a) => required_items(*v, path@) == Ok::<Seq<Value>, Fault>(a@),
            Err(e) => required_items(*v, path@) == Err::<Seq<Value>, Fault>(crate::error::known(e@)),
        },
{
    match v.as_array() {
        Some(a) => Ok(a),
        None => Err(MeshError::WrongType { path: path.to_owned(), expected: "array" }),
    }
}

/// The number under `key`, cut to 32 bits.
pub open spec fn required_u32(v: Value, key: Seq<char>, path: Seq<char>) -> Result<u32, Fault> {
    match crate::kv::unsigned_at(v, key) {
        Some(u) => Ok(u as u32),
        None => Err(Fault::Missing { path: crate::text::key_path(path, key) }),
    }
}

/// The number under `key`, cut to 32 bits; an error where there is none.
pub fn require_u32(v: &Value, key: &str, path: &str) -> (r: Result<u32, MeshError>)
    ensures
        match r {
            Ok(u) => required_u32(*v, key@, path@) == Ok::<u32, Fault>(u),
            Err(e) => required_u32(*v, key@, path@) == Err::<u32, Fault>(crate::error::known(e@)),
        },
{
    match v.get_u64(key) {
        Some(u) => Ok(#[verifier::truncate] (u as u32)),
        None => Err(MeshError::Missing { path: join_key(path, key) }),
    }
}

/// The flag under `key`: a truth value, or an integer that is not zero; clear where absent.
pub open spec fn flag_at(v: Value, key: Seq<char>) -> bool {
    match crate::kv::truth_at(v, key) {
        Some(b) => b,
        None => false,
    }
}

/// The flag under `key`.
pub fn flag(v: &Value, key: &str) -> (r: bool)
    ensures
        r == flag_at(*v, key@),
{
    match v.get_truth(key) {
        Some(b) => b,
        None => false,
    }
}

/// The name of a layout field, in upper case: a string, or the text of a zero-terminated blob.
pub open spec fn semantic_of(field: Value, path: Seq<char>) -> Result<Seq<char>, Fault> {
    let at = crate::text::key_path(path, "m_pSemanticName"@);
    match crate::kv::child(field, "m_pSemanticName"@) {
        None => Err(Fault::Missing { path: at }),
        Some(name) => match name {
            Value::String(s) => Ok(crate::text::ascii_uppered(s@)),
            Value::Blob(b) => Ok(crate::text::ascii_uppered(crate::reader::slot_text(b@))),
            _ => Err(Fault::WrongType { path: at, expected: "string or blob"@ }),
        },
    }
}

/// The name of a layout field.
pub fn semantic_name_of(field: &Value, path: &str) -> (r: Result<String, MeshError>)
    ensures
        crate::error::outcome(r) == semantic_of(*field, path@),
{
    match field.get("m_pSemanticName") {
        None => Err(MeshError::Missing { path: join_key(path, "m_pSemanticName") }),
        Some(name) => match name {
            Value::String(s) => Ok(to_ascii_uppercase(s.as_str())),
            Value::Blob(b) => Ok(to_ascii_uppercase(cstr_text(b.as_slice()).as_str())),
            _ => Err(
                MeshError::WrongType {
                    path: join_key(path, "m_pSemanticName"),
                    expected: "string or blob",
                },
            ),
        },
    }
}

/// One layout field of the key-value form; absent numbers are 0, and large ones are cut.
pub open spec fn layout_field(v: Value, path: Seq<char>) -> Result<FieldView, Fault> {
    match semantic_of(v, path) {
        Err(f) => Err(f),
        Ok(semantic_name) => Ok(
            FieldView {
                semantic_name,
                semantic_index: match crate::kv::signed_at(v, "m_nSemanticIndex"@) {
                    Some(i) => i as i32,
                    None => 0,
                },
                format: crate::format::format_of(
                    match crate::kv::unsigned_at(v, "m_Format"@) {
                        Some(u) => u as u32,
                        None => 0,
                    },
                ),
                offset: match crate::kv::unsigned_at(v, "m_nOffset"@) {
                    Some(u) => u as u32,
                    None => 0,
                },
            },
        ),
    }
}

/// Decodes one layout field of the key-value form.
fn parse_layout_field(v: &Value, path: &str) -> (r: Result<InputLayoutField, MeshError>)
    ensures
        crate::error::outcome(r) == layout_field(*v, path@),
{
    let semantic_name: String = match semantic_name_of(v, path) {
        Ok(s) => s,
        Err(e) => {
            return Err(e);
        },
    };
    let semantic_index: i32 = match v.get_i64("m_nSemanticIndex") {
        Some(i) => #[verifier::truncate] (i as i32),
        None => 0,
    };
    let format: u32 = match v.get_u64("m_Format") {
        Some(u) => #[verifier::truncate] (u as u32),
        None => 0,
    };
    let offset: u32 = match v.get_u64("m_nOffset") {
        Some(u) => #[verifier::truncate] (u as u32),
        None => 0,
    };
    Ok(
        InputLayoutField {
            semantic_name,
            semantic_index,
            format: DxgiFormat::from_raw(format),
            offset,
        },
    )
}

/// The fields of a layout list.
pub open spec fn layout_step(items: Seq<Value>, path: Seq<char>) -> spec_fn(int) -> Result<
    FieldView,
    Fault,
> {
    |i: int| layout_field(items[i], crate::text::item_path(path, "m_inputLayoutFields"@, i))
}

/// The layout of a buffer entry; none where the key is absent.
pub open spec fn layout_of_entry(entry: Value, path: Seq<char>) -> Result<Seq<FieldView>, Fault> {
    match crate::kv::child(entry, "m_inputLayoutFields"@) {
        None => Ok(Seq::empty()),
        Some(v) => match required_items(v, crate::text::key_path(path, "m_inputLayoutFields"@)) {
            Err(f) => Err(f),
            Ok(items) => crate::error::gather(layout_step(items, path), items.len()),
        },
    }
}

/// Decodes the layout of a buffer entry.
pub fn parse_input_layout_fields(entry: &Value, path: &str) -> (r: Result<
    Vec<InputLayoutField>,
    MeshError,
>)
    ensures
        match r {
            Ok(v) => layout_of_entry(*entry, path@) == Ok::<Seq<FieldView>, Fault>(
                field_views(v@),
            ),
            Err(e) => layout_of_entry(*entry, path@) == Err::<Seq<FieldView>, Fault>(crate::error::known(e@)),
        },
{
    let mut out: Vec<InputLayoutField> = Vec::new();
    assert(field_views(out@) =~= Seq::<FieldView>::empty());
    let list: &Value = match entry.get("m_inputLayoutFields") {
        None => {
            return Ok(out);
        },
        Some(v) => v,
    };
    let at: String = join_key(path, "m_inputLayoutFields");
    let items: &Vec<Value> = match require_array(list, at.as_str()) {
        Ok(a) => a,
        Err(e) => {
            return Err(e);
        },
    };
    let ghost step = layout_step(items@, path@);
    let mut i: usize = 0;
    while i < items.len()
        invariant
            i <= items@.len(),
            step == layout_step(items@, path@),
            layout_of_entry(*entry, path@) == crate::error::gather(step, items@.len()),
            crate::error::gather(step, i as nat) == Ok::<Seq<FieldView>, Fault>(field_views(out@)),
        decreases items@.len() - i,
    {
        let at: String = join_item(path, "m_inputLayoutFields", i);
        match parse_layout_field(&items[i], at.as_str()) {
            Ok(f) => {
                proof {
                    assert(field_views(out@.push(f)) =~= field_views(out@).push(f@));
                }
                out.push(f);
            },
            Err(e) => {
                proof {
                    assert(step(i as int) == Err::<FieldView, Fault>(crate::error::known(e@)));
                    crate::error::lemma_gather_refused(step, (i + 1) as nat, items@.len());
                }
                return Err(e);
            },
        }
        i += 1;
    }
    Ok(out)
}

/// The bytes that a buffer entry carries itself: at full size as they are, else one meshoptimizer
/// stream, never zstd.
pub open spec fn inline_bytes(
    raw: Seq<u8>,
    count: u32,
    size: u32,
    is_vertex: bool,
    path: Seq<char>,
) -> Result<(Seq<u8>, Compression), Fault> {
    match buffer_size(count, size, path) {
        Err(f) => Err(f),
        Ok(full) => if raw.len() == full {
            Ok((raw, uncompressed()))
        } else {
            match stream_bytes(raw, count as usize, size as usize, is_vertex, path) {
                Err(f) => Err(f),
                Ok(data) => Ok(
                    (
                        data,
                        Compression {
                            zstd: false,
                            meshopt: true,
                            meshopt_header: first_byte(raw),
                        },
                    ),
                ),
            }
        },
    }
}

/// The bytes of a buffer entry: those it carries itself, or those of the block it points at.
pub open spec fn entry_bytes(
    resource: Resource,
    entry: Value,
    count: u32,
    size: u32,
    is_vertex: bool,
    path: Seq<char>,
) -> Result<(Seq<u8>, Compression), Fault> {
    match crate::kv::child(entry, "m_pData"@) {
        Some(carried) => match crate::kv::blob_of(carried) {
            None => Err(
                Fault::WrongType {
                    path: crate::text::key_path(path, "m_pData"@),
                    expected: "blob"@,
                },
            ),
            Some(raw) => inline_bytes(raw, count, size, is_vertex, path),
        },
        None => match crate::kv::signed_at(entry, "m_nBlockIndex"@) {
            None => Err(
                Fault::Missing { path: crate::text::key_path(path, "m_nBlockIndex"@) },
            ),
            Some(index) => match crate::kv::filled_block(resource, index as int) {
                None => Err(Fault::BlockNotFound { path, index }),
                Some(block) => decoded_buffer(
                    block.bytes@,
                    count,
                    size,
                    is_vertex,
                    flag_at(entry, "m_bCompressedZSTD"@),
                    flag_at(entry, "m_bMeshoptCompressed"@),
                    path,
                ),
            },
        },
    }
}

/// One buffer of the key-value form.
pub open spec fn kv3_buffer(
    resource: Resource,
    entry: Value,
    is_vertex: bool,
    path: Seq<char>,
) -> Result<BufferView, Fault> {
    match required_u32(entry, "m_nElementCount"@, path) {
        Err(f) => Err(f),
        Ok(element_count) => match required_u32(entry, "m_nElementSizeInBytes"@, path) {
            Err(f) => Err(f),
            Ok(element_size) => match layout_of_entry(entry, path) {
                Err(f) => Err(f),
                Ok(fields) => match entry_bytes(
                    resource,
                    entry,
                    element_count,
                    element_size,
                    is_vertex,
                    path,
                ) {
                    Err(f) => Err(f),
                    Ok(p) => Ok(
                        BufferView {
                            element_count,
                            element_size,
                            fields,
                            data: p.0,
                            compression: p.1,
                        },
                    ),
                },
            },
        },
    }
}

/// Takes the compression off the bytes that a buffer entry carries itself.
fn decode_inline(raw: &[u8], count: u32, size: u32, is_vertex: bool, path: &str) -> (r: Result<
    (Vec<u8>, Compression),
    MeshError,
>)
    ensures
        decoded_outcome(r) == inline_bytes(raw@, count, size, is_vertex, path@),
        r matches Ok(p) ==> p.0@.len() == count * size,
{
    let full: usize = match checked_size(count, size, path) {
        Ok(n) => n,
        Err(e) => {
            return Err(e);
        },
    };
    if raw.len() == full {
        return Ok((copy_of(raw), Compression::default()));
    }
    match meshopt_decode(raw, count as usize, size as usize, is_vertex, path) {
        Ok(data) => {
            let header: Option<u8> = if raw.len() > 0 {
                Some(raw[0])
            } else {
                None
            };
            Ok((data, Compression { zstd: false, meshopt: true, meshopt_header: header }))
        },
        Err(e) => Err(e),
    }
}

/// Finds and decompresses the bytes of a buffer entry.
fn parse_entry_bytes(
    resource: &Resource,
    entry: &Value,
    count: u32,
    size: u32,
    is_vertex: bool,
    path: &str,
) -> (r: Result<(Vec<u8>, Compression), MeshError>)
    ensures
        decoded_outcome(r) == entry_bytes(*resource, *entry, count, size, is_vertex, path@),
        r matches Ok(p) ==> p.0@.len() == count * size,
{
    match entry.get("m_pData") {
        Some(carried) => match carried.as_blob() {
            None => Err(
                MeshError::WrongType { path: join_key(path, "m_pData"), expected: "blob" },
            ),
            Some(raw) => decode_inline(raw, count, size, is_vertex, path),
        },
        None => match entry.get_i64("m_nBlockIndex") {
            None => Err(MeshError::Missing { path: join_key(path, "m_nBlockIndex") }),
            Some(index) => match resource.block_at(index) {
                None => Err(MeshError::BlockNotFound { path: path.to_owned(), index }),
                Some(block) => decode_buffer_bytes(
                    block.bytes.as_slice(),
                    count,
                    size,
                    is_vertex,
                    flag(entry, "m_bCompressedZSTD"),
                    flag(entry, "m_bMeshoptCompressed"),
                    path,
                ),
            },
        },
    }
}

/// Decodes one buffer of the key-value form.
pub fn parse_kv3_buffer(resource: &Resource, entry: &Value, is_vertex: bool, path: &str) -> (r:
    Result<Buffer, MeshError>)
    ensures
        crate::error::outcome(r) == kv3_buffer(*resource, *entry, is_vertex, path@),
        r matches Ok(b) ==> complete(b@),
{
    let element_count: u32 = match require_u32(entry, "m_nElementCount", path) {
        Ok(n) => n,
        Err(e) => {
            return Err(e);
        },
    };
    let element_size: u32 = match require_u32(entry, "m_nElementSizeInBytes", path) {
        Ok(n) => n,
        Err(e) => {
            return Err(e);
        },
    };
    let fields: Vec<InputLayoutField> = match parse_input_layout_fields(entry, path) {
        Ok(f) => f,
        Err(e) => {
            return Err(e);
        },
    };
    match parse_entry_bytes(resource, entry, element_count, element_size, is_vertex, path) {
        Ok(pair) => Ok(
            Buffer { element_count, element_size, fields, data: pair.0, compression: pair.1 },
        ),
        Err(e) => Err(e),
    }
}

/// The buffers of one list.
pub open spec fn kv3_step(
    resource: Resource,
    items: Seq<Value>,
    is_vertex: bool,
    path: Seq<char>,
    key: Seq<char>,
) -> spec_fn(int) -> Result<BufferView, Fault> {
    |i: int| kv3_buffer(resource, items[i], is_vertex, crate::text::item_path(path, key, i))
}

/// The buffers under `key`; none where the key is absent.
pub open spec fn kv3_list(
    resource: Resource,
    root: Value,
    is_vertex: bool,
    path: Seq<char>,
    key: Seq<char>,
) -> Result<Seq<BufferView>, Fault> {
    match crate::kv::child(root, key) {
        None => Ok(Seq::empty()),
        Some(v) => match required_items(v, crate::text::key_path(path, key)) {
            Err(f) => Err(f),
            Ok(items) => crate::error::gather(
                kv3_step(resource, items, is_vertex, path, key),
                items.len(),
            ),
        },
    }
}

/// Decodes the buffers under `key`.
fn parse_kv3_list(
    resource: &Resource,
    root: &Value,
    is_vertex: bool,
    path: &str,
    key: &str,
) -> (r: Result<Vec<Buffer>, MeshError>)
    ensures
        match r {
            Ok(v) => kv3_list(*resource, *root, is_vertex, path@, key@) == Ok::<
                Seq<BufferView>,
                Fault,
            >(buffer_views(v@)) && all_complete(v@),
            Err(e) => kv3_list(*resource, *root, is_vertex, path@, key@) == Err::<
                Seq<BufferView>,
                Fault,
            >(crate::error::known(e@)),
        },
{
    let mut out: Vec<Buffer> = Vec::new();
    assert(buffer_views(out@) =~= Seq::<BufferView>::empty());
    let list: &Value = match root.get(key) {
        None => {
            return Ok(out);
        },
        Some(v) => v,
    };
    let at: String = join_key(path, key);
    let items: &Vec<Value> = match require_array(list, at.as_str()) {
        Ok(a) => a,
        Err(e) => {
            return Err(e);
        },
    };
    let ghost step = kv3_step(*resource, items@, is_vertex, path@, key@);
    let mut i: usize = 0;
    while i < items.len()
        invariant
            i <= items@.len(),
            step == kv3_step(*resource, items@, is_vertex, path@, key@),
            kv3_list(*resource, *root, is_vertex, path@, key@) == crate::error::gather(
                step,
                items@.len(),
            ),
            crate::error::gather(step, i as nat) == Ok::<Seq<BufferView>, Fault>(
                buffer_views(out@),
            ),
            all_complete(out@),
        decreases items@.len() - i,
    {
        let at: String = join_item(path, key, i);
        match parse_kv3_buffer(resource, &items[i], is_vertex, at.as_str()) {
            Ok(b) => {
                proof {
                    assert(buffer_views(out@.push(b)) =~= buffer_views(out@).push(b@));
                }
                out.push(b);
            },
            Err(e) => {
                proof {
                    assert(step(i as int) == Err::<BufferView, Fault>(crate::error::known(e@)));
                    crate::error::lemma_gather_refused(step, (i + 1) as nat, items@.len());
                }
                return Err(e);
            },
        }
        i += 1;
    }
    Ok(out)
}

/// The vertex and index buffers of a key-value root.
pub open spec fn kv3_buffers(resource: Resource, root: Value, path: Seq<char>) -> Result<
    (Seq<BufferView>, Seq<BufferView>),
    Fault,
> {
    match kv3_list(resource, root, true, path, "m_vertexBuffers"@) {
        Err(f) => Err(f),
        Ok(vertex) => match kv3_list(resource, root, false, path, "m_indexBuffers"@) {
            Err(f) => Err(f),
            Ok(index) => Ok((vertex, index)),
        },
    }
}

/// Decodes `m_vertexBuffers` and `m_indexBuffers`; an absent key is an empty list.
pub fn parse_kv3_buffers(resource: &Resource, root: &Value, path: &str) -> (r: Result<
    (Vec<Buffer>, Vec<Buffer>),
    MeshError,
>)
    ensures
        buffers_outcome(r) == kv3_buffers(*resource, *root, path@),
        r matches Ok(p) ==> all_complete(p.0@) && all_complete(p.1@),
{
    let vertex: Vec<Buffer> = match parse_kv3_list(resource, root, true, path, "m_vertexBuffers") {
        Ok(v) => v,
        Err(e) => {
            return Err(e);
        },
    };
    let index: Vec<Buffer> = match parse_kv3_list(resource, root, false, path, "m_indexBuffers") {
        Ok(v) => v,
        Err(e) => {
            return Err(e);
        },
    };
    Ok((vertex, index))
}

} // verus!
