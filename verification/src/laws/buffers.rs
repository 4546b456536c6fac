//! What the stored bytes of a buffer decode to.

use crate::error::Fault;
use vstd::prelude::*;

verus! {

/// Bytes that are as many as a buffer needs are the buffer, whatever its flags say; more are refused, and so
/// is a buffer beyond the limit.
pub proof fn bytes_of_the_full_size_are_the_buffer(
    stored: Seq<u8>,
    count: u32,
    size: u32,
    is_vertex: bool,
    is_zstd: bool,
    is_meshopt: bool,
    path: Seq<char>,
)
    requires
        stored.len() <= usize::MAX,
    ensures
        ({
            let r = crate::buffer::decoded_buffer(
                stored,
                count,
                size,
                is_vertex,
                is_zstd,
                is_meshopt,
                path,
            );
            let limit = crate::buffer::MAX_BUFFER_BYTES;
            &&& count * size > limit ==> r is Err
            &&& count * size <= limit && count * size <= usize::MAX && stored.len() == count * size
                ==> (r matches Ok(p) && p.0 == stored && !p.1.zstd && !p.1.meshopt
                && p.1.meshopt_header is None)
            &&& count * size <= limit && count * size <= usize::MAX && stored.len() > count * size
                ==> (r matches Err(f) && f == (Fault::LengthMismatch {
                path,
                actual: stored.len() as usize,
                expected: (count * size) as usize,
            }))
        }),
{
}

/// Fewer bytes are decompressed: first as frames where they are said to be, then as a stream of indices or
/// of vertices where they are said to be. Without the latter they must be as many as the buffer needs.
pub proof fn fewer_bytes_are_decompressed_as_they_say(
    stored: Seq<u8>,
    count: u32,
    size: u32,
    is_vertex: bool,
    is_zstd: bool,
    is_meshopt: bool,
    path: Seq<char>,
)
    requires
        count * size <= crate::buffer::MAX_BUFFER_BYTES,
        count * size <= usize::MAX,
        stored.len() < count * size,
    ensures
        ({
            let r = crate::buffer::decoded_buffer(
                stored,
                count,
                size,
                is_vertex,
                is_zstd,
                is_meshopt,
                path,
            );
            let frames = crate::codec::zstd_frames(stored, (count * size) as nat);
            let inner = if is_zstd {
                frames->Ok_0
            } else {
                stored
            };
            &&& is_zstd && frames is Err ==> r is Err
            &&& !(is_zstd && frames is Err) && !is_meshopt && inner.len() == count * size ==> (
            r matches Ok(p) && p.0 == inner && p.1.zstd == is_zstd && !p.1.meshopt
                && p.1.meshopt_header is None)
            &&& !(is_zstd && frames is Err) && !is_meshopt && inner.len() != count * size ==> r is Err
            &&& !(is_zstd && frames is Err) && is_meshopt ==> {
                let data = decompressed(inner, count as int, size as int, is_vertex);
                &&& data is Some == r is Ok
                &&& r matches Ok(p) ==> Some(p.0) == data && p.1.zstd == is_zstd && p.1.meshopt
                    && (inner.len() > 0 ==> p.1.meshopt_header == Some(inner[0])) && (inner.len()
                    == 0 ==> p.1.meshopt_header is None)
            }
        }),
{
}

/// What a stream decompresses to: vertices of a size that can be, or the indices of triangles, two or four
/// bytes to an index.
pub open spec fn decompressed(inner: Seq<u8>, count: int, size: int, is_vertex: bool) -> Option<
    Seq<u8>,
> {
    if is_vertex {
        if 0 < size <= 256 && size % 4 == 0 {
            crate::codec::vertex_stream(inner, count as nat, size as nat)
        } else {
            None
        }
    } else if count % 3 != 0 {
        None
    } else if size == 2 {
        match crate::codec::index_stream16(inner, count as nat) {
            Ok(v) => Some(crate::bytes::all_bytes16(v)),
            Err(_) => None,
        }
    } else if size == 4 {
        match crate::codec::index_stream32(inner, count as nat) {
            Ok(v) => Some(crate::bytes::all_bytes32(v)),
            Err(_) => None,
        }
    } else {
        None
    }
}

/// Indices that were decompressed are stored as they are, one after the other.
pub proof fn decompressed_indices_are_stored_in_order(v: Seq<u16>, w: Seq<u32>, i: int)
    ensures
        0 <= i < v.len() ==> crate::buffer::stored_index(crate::bytes::all_bytes16(v), 2, i) == Some(
            v[i] as u32,
        ),
        0 <= i < w.len() ==> crate::buffer::stored_index(crate::bytes::all_bytes32(w), 4, i) == Some(
            w[i],
        ),
{
    if 0 <= i < v.len() {
        crate::laws::streams::short_words_are_written_in_order(v, i);
    }
    if 0 <= i < w.len() {
        crate::laws::streams::words_are_written_in_order(w, i);
    }
}

/// A field of a buffer is found by its name, whatever the case, and its number; the first counts.
pub proof fn a_field_is_found_by_name_and_number(
    fields: Seq<crate::buffer::InputLayoutField>,
    name: Seq<char>,
    index: i32,
    from: int,
)
    requires
        0 <= from <= fields.len(),
    ensures
        match crate::buffer::field_from(fields, name, index, from) {
            Some(f) => exists|i: int|
                from <= i < fields.len() && #[trigger] fields[i] == f && is_field(f, name, index)
                    && forall|k: int|
                    from <= k < i ==> !is_field(#[trigger] fields[k], name, index),
            None => forall|k: int|
                from <= k < fields.len() ==> !is_field(#[trigger] fields[k], name, index),
        },
    decreases fields.len() - from,
{
    if from < fields.len() && !is_field(fields[from], name, index) {
        a_field_is_found_by_name_and_number(fields, name, index, from + 1);
    } else if from < fields.len() {
        assert(fields[from] == fields[from]);
    }
}

/// Whether a field has a name, whatever its case, and a number.
pub open spec fn is_field(
    f: crate::buffer::InputLayoutField,
    name: Seq<char>,
    index: i32,
) -> bool {
    f.semantic_index == index && crate::text::same_ignoring_case(f.semantic_name@, name)
}

/// The word of a buffer's size holds the size in its low bits; above them it says whether the buffer is a
/// stream, by a bit that is not set, and whether it is in frames, by one that is.
pub proof fn the_word_of_the_size_holds_the_flags(size: u32, stream: bool, frames: bool)
    requires
        size < 0x400_0000,
    ensures
        ({
            let word = (size + (if stream {
                0int
            } else {
                0x400_0000
            }) + (if frames {
                0x800_0000int
            } else {
                0
            })) as u32;
            &&& crate::buffer::size_bits(word) == size
            &&& crate::buffer::says_meshopt(word) == stream
            &&& crate::buffer::says_zstd(word) == frames
        }),
{
}

} // verus!
