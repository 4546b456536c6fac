//! What the streams of the document hold: which bytes stand for which vertex, where they lie, and
//! which accessor describes them.

use crate::geometry::Streams;
use crate::gltf::{Bounds, BuilderView, Shape};
use vstd::prelude::*;

verus! {

/// The rows of a stream stand one after the other: word `c` of row `i` stands at `N * i + c`.
pub proof fn words_of_rows_stand_in_order<const N: usize>(v: Seq<[u32; N]>, i: int, c: int)
    requires
        0 <= i < v.len(),
        0 <= c < N,
    ensures
        crate::gltf::rows32(v).len() == N * v.len(),
        0 <= N * i + c < N * v.len(),
        crate::gltf::rows32(v)[N * i + c] == v[i]@[c],
    decreases v.len(),
{
    let n = v.len() - 1;
    let front = v.drop_last();
    lemma_rows32(front);
    assert(N * v.len() == N * n + N) by (nonlinear_arith)
        requires
            v.len() == n + 1,
    ;
    assert(0 <= N * i + c < N * v.len()) by (nonlinear_arith)
        requires
            0 <= i < v.len(),
            0 <= c < N,
    ;
    if i < n {
        words_of_rows_stand_in_order(front, i, c);
    }
}

/// How many words rows have.
proof fn lemma_rows32<const N: usize>(v: Seq<[u32; N]>)
    ensures
        crate::gltf::rows32(v).len() == N * v.len(),
    decreases v.len(),
{
    if v.len() > 0 {
        lemma_rows32(v.drop_last());
        assert(N * v.len() == N * (v.len() - 1) + N) by (nonlinear_arith);
    }
}

/// The same of rows of short words.
pub proof fn short_words_of_rows_stand_in_order<const N: usize>(v: Seq<[u16; N]>, i: int, c: int)
    requires
        0 <= i < v.len(),
        0 <= c < N,
    ensures
        crate::gltf::rows16(v).len() == N * v.len(),
        0 <= N * i + c < N * v.len(),
        crate::gltf::rows16(v)[N * i + c] == v[i]@[c],
    decreases v.len(),
{
    let n = v.len() - 1;
    let front = v.drop_last();
    lemma_rows16(front);
    assert(N * v.len() == N * n + N) by (nonlinear_arith)
        requires
            v.len() == n + 1,
    ;
    assert(0 <= N * i + c < N * v.len()) by (nonlinear_arith)
        requires
            0 <= i < v.len(),
            0 <= c < N,
    ;
    if i < n {
        short_words_of_rows_stand_in_order(front, i, c);
    }
}

/// How many short words rows have.
proof fn lemma_rows16<const N: usize>(v: Seq<[u16; N]>)
    ensures
        crate::gltf::rows16(v).len() == N * v.len(),
    decreases v.len(),
{
    if v.len() > 0 {
        lemma_rows16(v.drop_last());
        assert(N * v.len() == N * (v.len() - 1) + N) by (nonlinear_arith);
    }
}

/// The bytes of words stand one word after the other, the low byte first.
pub proof fn words_are_written_in_order(v: Seq<u32>, i: int)
    requires
        0 <= i < v.len(),
    ensures
        crate::bytes::all_bytes32(v).len() == 4 * v.len(),
        crate::bytes::le32(crate::bytes::all_bytes32(v), 4 * i) == v[i],
    decreases v.len(),
{
    let front = v.drop_last();
    lemma_bytes32(front);
    crate::laws::trees::the_low_byte_comes_first(v.last(), 0);
    if i < front.len() {
        words_are_written_in_order(front, i);
    }
}

/// How many bytes words have.
proof fn lemma_bytes32(v: Seq<u32>)
    ensures
        crate::bytes::all_bytes32(v).len() == 4 * v.len(),
    decreases v.len(),
{
    if v.len() > 0 {
        lemma_bytes32(v.drop_last());
    }
}

/// The same of short words.
pub proof fn short_words_are_written_in_order(v: Seq<u16>, i: int)
    requires
        0 <= i < v.len(),
    ensures
        crate::bytes::all_bytes16(v).len() == 2 * v.len(),
        crate::bytes::le16(crate::bytes::all_bytes16(v), 2 * i) == v[i],
    decreases v.len(),
{
    let front = v.drop_last();
    lemma_bytes16(front);
    crate::laws::trees::the_low_byte_comes_first(0, v.last());
    if i < front.len() {
        short_words_are_written_in_order(front, i);
    }
}

/// How many bytes short words have.
proof fn lemma_bytes16(v: Seq<u16>)
    ensures
        crate::bytes::all_bytes16(v).len() == 2 * v.len(),
    decreases v.len(),
{
    if v.len() > 0 {
        lemma_bytes16(v.drop_last());
    }
}

/// A normal takes four bytes: its three numbers, each with its sign, and a nought.
pub proof fn normals_are_written_in_order(v: Seq<[i8; 3]>, i: int)
    requires
        0 <= i < v.len(),
    ensures
        ({
            let b = crate::gltf::normal_bytes(v);
            &&& b.len() == 4 * v.len()
            &&& forall|c: int|
                0 <= c < 3 ==> #[trigger] b[4 * i + c] == v[i]@[c] as u8
            &&& forall|c: int|
                0 <= c < 3 && v[i]@[c] >= 0 ==> #[trigger] b[4 * i + c] == v[i]@[c]
            &&& forall|c: int|
                0 <= c < 3 && v[i]@[c] < 0 ==> #[trigger] b[4 * i + c] == 256 + v[i]@[c]
            &&& b[4 * i + 3] == 0
        }),
    decreases v.len(),
{
    let front = v.drop_last();
    lemma_normal_bytes(front);
    let b = crate::gltf::normal_bytes(v);
    if i < front.len() {
        normals_are_written_in_order(front, i);
        let f = crate::gltf::normal_bytes(front);
        assert(front[i] == v[i]);
        assert(b[4 * i] == f[4 * i + 0] && b[4 * i + 1] == f[4 * i + 1] && b[4 * i + 2] == f[4 * i
            + 2] && b[4 * i + 3] == f[4 * i + 3]);
        assert forall|c: int| 0 <= c < 3 implies #[trigger] b[4 * i + c] == f[4 * i + c] by {}
    } else {
        let n = v.last()@;
        let row = crate::gltf::normal_row(v.last());
        lemma_byte_of(n[0]);
        lemma_byte_of(n[1]);
        lemma_byte_of(n[2]);
        assert forall|c: int| 0 <= c < 3 implies #[trigger] b[4 * i + c] == row[c] by {}
        assert forall|c: int| 0 <= c < 3 implies #[trigger] b[4 * i + c] == n[c] as u8 by {
            if c == 0 {
            } else if c == 1 {
            } else {
                assert(c == 2);
            }
        }
        assert forall|c: int| 0 <= c < 3 && n[c] >= 0 implies #[trigger] b[4 * i + c] == n[c] by {
            assert(b[4 * i + c] == n[c] as u8);
        }
        assert forall|c: int| 0 <= c < 3 && n[c] < 0 implies #[trigger] b[4 * i + c] == 256
            + n[c] by {
            assert(b[4 * i + c] == n[c] as u8);
        }
    }
}

/// The byte of a small number with its sign.
proof fn lemma_byte_of(x: i8)
    ensures
        x >= 0 ==> x as u8 == x,
        x < 0 ==> x as u8 == 256 + x,
{
    assert(x < 0 ==> x as u8 == 256 + x) by (bit_vector);
}

/// How many bytes normals have.
proof fn lemma_normal_bytes(v: Seq<[i8; 3]>)
    ensures
        crate::gltf::normal_bytes(v).len() == 4 * v.len(),
    decreases v.len(),
{
    if v.len() > 0 {
        lemma_normal_bytes(v.drop_last());
    }
}

/// A position in steps takes four short words: how far it is from the centre along each direction,
/// and a nought.
pub proof fn positions_are_written_from_the_centre(
    grid: Seq<[i64; 3]>,
    center: (i64, i64, i64),
    i: int,
)
    requires
        crate::gltf::on_grid(grid, center),
        0 <= i < grid.len(),
    ensures
        ({
            let w = crate::gltf::grid_words(grid, center);
            &&& w.len() == 4 * grid.len()
            &&& crate::bytes::as_signed16(w[4 * i] as int) == grid[i]@[0] - center.0
            &&& crate::bytes::as_signed16(w[4 * i + 1] as int) == grid[i]@[1] - center.1
            &&& crate::bytes::as_signed16(w[4 * i + 2] as int) == grid[i]@[2] - center.2
            &&& w[4 * i + 3] == 0
        }),
    decreases grid.len(),
{
    let front = grid.drop_last();
    lemma_grid_words(front, center);
    assert(crate::gltf::near(grid[i]@[0], center.0));
    assert forall|k: int| 0 <= k < front.len() implies crate::gltf::near(
        (#[trigger] front[k])@[0],
        center.0,
    ) && crate::gltf::near(front[k]@[1], center.1) && crate::gltf::near(front[k]@[2], center.2) by {
        assert(front[k] == grid[k]);
    }
    if i < front.len() {
        positions_are_written_from_the_centre(front, center, i);
    }
}

/// How many words positions have.
proof fn lemma_grid_words(grid: Seq<[i64; 3]>, center: (i64, i64, i64))
    ensures
        crate::gltf::grid_words(grid, center).len() == 4 * grid.len(),
    decreases grid.len(),
{
    if grid.len() > 0 {
        lemma_grid_words(grid.drop_last(), center);
    }
}

/// Whether a number is the least of how far positions are from the centre along a direction: none is
/// less, and one is as little.
pub open spec fn is_least(grid: Seq<[i64; 3]>, c: int, center: i64, n: int) -> bool {
    &&& forall|i: int| 0 <= i < grid.len() ==> n <= (#[trigger] grid[i])@[c] - center
    &&& exists|i: int| 0 <= i < grid.len() && n == (#[trigger] grid[i])@[c] - center
}

/// Whether a number is the greatest of them.
pub open spec fn is_greatest(grid: Seq<[i64; 3]>, c: int, center: i64, n: int) -> bool {
    &&& forall|i: int| 0 <= i < grid.len() ==> n >= (#[trigger] grid[i])@[c] - center
    &&& exists|i: int| 0 <= i < grid.len() && n == (#[trigger] grid[i])@[c] - center
}

/// What the search for the bounds finds.
proof fn lemma_bounds(grid: Seq<[i64; 3]>, c: int, center: i64)
    requires
        grid.len() > 0,
        forall|i: int|
            0 <= i < grid.len() ==> crate::gltf::near((#[trigger] grid[i])@[c], center),
    ensures
        is_least(grid, c, center, crate::gltf::least(grid, c, center)),
        is_greatest(grid, c, center, crate::gltf::greatest(grid, c, center)),
    decreases grid.len(),
{
    let front = grid.drop_last();
    let last = grid.len() - 1;
    assert(crate::gltf::near(grid[last]@[c], center));
    if front.len() > 0 {
        assert forall|i: int| 0 <= i < front.len() implies crate::gltf::near(
            (#[trigger] front[i])@[c],
            center,
        ) by {
            assert(front[i] == grid[i]);
        }
        lemma_bounds(front, c, center);
        let a = crate::gltf::least(front, c, center);
        let b = crate::gltf::greatest(front, c, center);
        let i = choose|i: int| 0 <= i < front.len() && a == (#[trigger] front[i])@[c] - center;
        let k = choose|k: int| 0 <= k < front.len() && b == (#[trigger] front[k])@[c] - center;
        assert(grid[i] == front[i] && grid[k] == front[k]);
        assert forall|j: int| 0 <= j < grid.len() implies crate::gltf::least(grid, c, center) <= (
        #[trigger] grid[j])@[c] - center && crate::gltf::greatest(grid, c, center) >= grid[j]@[c]
            - center by {
            if j < last {
                assert(front[j] == grid[j]);
            }
        }
    } else {
        assert(crate::gltf::least(front, c, center) == 32767);
        assert(crate::gltf::greatest(front, c, center) == -32768);
    }
}

/// The bounds of positions in steps are the least and the greatest of them, direction by direction.
pub proof fn bounds_are_the_least_and_the_greatest(
    grid: Seq<[i64; 3]>,
    center: (i64, i64, i64),
)
    requires
        crate::gltf::on_grid(grid, center),
        grid.len() > 0,
    ensures
        crate::gltf::grid_bounds(grid, center) matches Bounds::Shorts { min, max } && {
            &&& is_least(grid, 0, center.0, min.0 as int)
            &&& is_least(grid, 1, center.1, min.1 as int)
            &&& is_least(grid, 2, center.2, min.2 as int)
            &&& is_greatest(grid, 0, center.0, max.0 as int)
            &&& is_greatest(grid, 1, center.1, max.1 as int)
            &&& is_greatest(grid, 2, center.2, max.2 as int)
        },
{
    lemma_bounds(grid, 0, center.0);
    lemma_bounds(grid, 1, center.1);
    lemma_bounds(grid, 2, center.2);
}

/// Weights are kept between nought and one: what is less is nought, what is more is one, and what is
/// no number stays what it is.
pub proof fn weights_are_kept_between_nought_and_one(v: Seq<u32>, i: int)
    requires
        0 <= i < v.len(),
    ensures
        crate::gltf::clamped(v).len() == v.len(),
        ({
            let w = crate::gltf::clamped(v)[i];
            &&& crate::bits::f32_nan(v[i]) ==> w == v[i]
            &&& v[i] <= 0x3F80_0000 || v[i] == 0x8000_0000 ==> w == v[i]
            &&& 0x3F80_0000 < v[i] <= 0x7F80_0000 ==> w == 0x3F80_0000
            &&& 0x8000_0000 < v[i] <= 0xFF80_0000 ==> w == 0
        }),
{
}

/// The number of the first vertex that no index names is one more than the greatest index.
pub proof fn no_index_exceeds_the_greatest(v: Seq<u32>)
    ensures
        forall|i: int| 0 <= i < v.len() ==> #[trigger] v[i] <= crate::gltf::greatest_index(v),
        v.len() > 0 ==> exists|i: int|
            0 <= i < v.len() && #[trigger] v[i] == crate::gltf::greatest_index(v),
        v.len() == 0 ==> crate::gltf::greatest_index(v) == 0,
    decreases v.len(),
{
    if v.len() > 0 {
        let front = v.drop_last();
        no_index_exceeds_the_greatest(front);
        let last = v.len() - 1;
        assert forall|i: int| 0 <= i < v.len() implies #[trigger] v[i]
            <= crate::gltf::greatest_index(v) by {
            if i < last {
                assert(front[i] == v[i]);
            }
        }
        if crate::gltf::greatest_index(v) == v[last] {
        } else {
            let i = choose|i: int|
                0 <= i < front.len() && #[trigger] front[i] == crate::gltf::greatest_index(front);
            assert(front.len() > 0);
            assert(v[i] == front[i]);
        }
    }
}

/// Indices that fit are narrowed without loss.
pub proof fn narrow_indices_are_the_same(v: Seq<u32>)
    requires
        crate::gltf::fits_u16(v),
    ensures
        crate::gltf::narrowed(v).len() == v.len(),
        forall|i: int| 0 <= i < v.len() ==> #[trigger] crate::gltf::narrowed(v)[i] == v[i],
{
}

/// Whether nothing of a document has changed but its bytes, its views, its accessors and what was
/// counted of them.
pub open spec fn keeps_the_rest(b: BuilderView, after: BuilderView) -> bool {
    &&& after.images == b.images
    &&& after.textures == b.textures
    &&& after.materials == b.materials
    &&& after.meshes == b.meshes
    &&& after.nodes == b.nodes
    &&& after.image_bytes == b.image_bytes
}

/// Whether the last view of a document holds bytes as they are, behind all that was there.
pub open spec fn ends_in_bytes(
    b: BuilderView,
    after: BuilderView,
    bytes: Seq<u8>,
    target: Option<u32>,
) -> bool {
    let n = b.buffer_views.len() as int;
    let v = after.buffer_views[n];
    &&& after.buffer_views.len() == n + 1
    &&& after.buffer_views.take(n) == b.buffer_views
    &&& after.bin.take(b.bin.len() as int) == b.bin
    &&& b.bin.len() <= v.offset < b.bin.len() + 4
    &&& v.offset % 4 == 0
    &&& v.length == bytes.len()
    &&& after.bin.len() == v.offset + v.length
    &&& after.bin.subrange(v.offset as int, v.offset + v.length) == bytes
    &&& forall|k: int| b.bin.len() <= k < v.offset ==> #[trigger] after.bin[k] == 0
    &&& v.stride is None
    &&& v.target == target
    &&& v.stream is None
    &&& after.fallback_bytes == b.fallback_bytes
    &&& after.used_meshopt == b.used_meshopt
}

/// A plain view more holds its bytes, behind all that was there and where a word may stand.
pub proof fn a_plain_view_holds_its_bytes(b: BuilderView, bytes: Seq<u8>, target: Option<u32>)
    requires
        b.bin.len() + 3 <= usize::MAX,
        bytes.len() <= usize::MAX,
    ensures
        ({
            let after = crate::gltf::with_plain_view(b, bytes, target);
            &&& ends_in_bytes(b, after, bytes, target)
            &&& keeps_the_rest(b, after)
            &&& after.accessors == b.accessors
        }),
{
    let after = crate::gltf::with_plain_view(b, bytes, target);
    let start = crate::gltf::padded(b.bin, 0);
    assert(after.buffer_views.take(b.buffer_views.len() as int) =~= b.buffer_views);
    assert(after.bin.take(b.bin.len() as int) =~= b.bin);
    assert(after.bin.subrange(start.len() as int, (start.len() + bytes.len()) as int) =~= bytes);
}

/// Whether the last view of a document holds a compressed stream, behind all that was there; it
/// stands for as many bytes of the second buffer as its elements take.
pub open spec fn ends_in_stream(
    b: BuilderView,
    after: BuilderView,
    compressed: Seq<u8>,
    count: int,
    element: int,
    triangles: bool,
    target: Option<u32>,
) -> bool {
    let n = b.buffer_views.len() as int;
    let v = after.buffer_views[n];
    &&& after.buffer_views.len() == n + 1
    &&& after.buffer_views.take(n) == b.buffer_views
    &&& after.bin.take(b.bin.len() as int) == b.bin
    &&& b.fallback_bytes <= v.offset < b.fallback_bytes + 4
    &&& v.offset % 4 == 0
    &&& v.length == count * element
    &&& after.fallback_bytes == v.offset + v.length
    &&& v.target == target
    &&& v.stride == if triangles {
        None
    } else {
        Some(element as usize)
    }
    &&& v.stream matches Some(s) && {
        &&& b.bin.len() <= s.offset < b.bin.len() + 4
        &&& s.offset % 4 == 0
        &&& s.length == compressed.len()
        &&& after.bin.len() == s.offset + s.length
        &&& after.bin.subrange(s.offset as int, s.offset + s.length) == compressed
        &&& s.element == element
        &&& s.count == count
        &&& s.triangles == triangles
    }
    &&& after.used_meshopt
}

/// A stream more lies behind all that was there.
pub proof fn a_stream_lies_where_its_view_says(
    b: BuilderView,
    compressed: Seq<u8>,
    count: int,
    element: int,
    triangles: bool,
    target: Option<u32>,
)
    requires
        b.bin.len() + 3 <= usize::MAX,
        compressed.len() <= usize::MAX,
        0 <= b.fallback_bytes,
        b.fallback_bytes + 3 <= usize::MAX,
        0 <= count <= usize::MAX,
        0 <= element <= usize::MAX,
        0 <= count * element <= usize::MAX,
    ensures
        ({
            let after = crate::gltf::with_stream(b, compressed, count, element, triangles, target);
            &&& ends_in_stream(b, after, compressed, count, element, triangles, target)
            &&& keeps_the_rest(b, after)
            &&& after.accessors == b.accessors
        }),
{
    let after = crate::gltf::with_stream(b, compressed, count, element, triangles, target);
    let start = crate::gltf::padded(b.bin, 0);
    assert(after.buffer_views.take(b.buffer_views.len() as int) =~= b.buffer_views);
    assert(after.bin.take(b.bin.len() as int) =~= b.bin);
    assert(after.bin.subrange(start.len() as int, (start.len() + compressed.len()) as int)
        =~= compressed);
}

/// Whether a document has all that another has, at the same places.
pub open spec fn extends(b: BuilderView, after: BuilderView) -> bool {
    &&& b.bin.len() <= after.bin.len()
    &&& after.bin.take(b.bin.len() as int) == b.bin
    &&& b.buffer_views.len() <= after.buffer_views.len()
    &&& after.buffer_views.take(b.buffer_views.len() as int) == b.buffer_views
    &&& b.accessors.len() <= after.accessors.len()
    &&& after.accessors.take(b.accessors.len() as int) == b.accessors
}

/// Whether an accessor of a document reads a compressed attribute: so many elements of so many bytes,
/// of which the stream of its view is the compressed form.
pub open spec fn reads(
    b: BuilderView,
    k: int,
    raw: Seq<u8>,
    count: int,
    element: int,
    component_type: int,
    shape: Shape,
    normalized: bool,
) -> bool {
    let a = b.accessors[k];
    let v = b.buffer_views[a.view as int];
    &&& 0 <= k < b.accessors.len()
    &&& a.view < b.buffer_views.len()
    &&& a.component_type == component_type
    &&& a.count == count
    &&& a.shape == shape
    &&& a.normalized == normalized
    &&& v.length == count * element
    &&& v.stride == Some(element as usize)
    &&& v.target == Some(34962u32)
    &&& v.stream matches Some(s) && {
        &&& s.count == count
        &&& s.element == element
        &&& !s.triangles
        &&& s.offset + s.length <= b.bin.len()
        &&& count > 0 ==> b.bin.subrange(s.offset as int, s.offset + s.length)
            == crate::codec::encoded_vertices(raw, count as nat, element as nat, 3, 1)
        &&& count == 0 ==> s.length == 0
    }
}

/// What a document says of a stream it still says when more is written behind it.
proof fn lemma_still_reads(
    b: BuilderView,
    after: BuilderView,
    k: int,
    raw: Seq<u8>,
    count: int,
    element: int,
    component_type: int,
    shape: Shape,
    normalized: bool,
)
    requires
        reads(b, k, raw, count, element, component_type, shape, normalized),
        extends(b, after),
    ensures
        reads(after, k, raw, count, element, component_type, shape, normalized),
        after.accessors[k] == b.accessors[k],
{
    let a = b.accessors[k];
    let n = b.accessors.len() as int;
    assert(after.accessors[k] == after.accessors.take(n)[k]);
    let m = b.buffer_views.len() as int;
    assert(after.buffer_views[a.view as int] == after.buffer_views.take(m)[a.view as int]);
    let s = b.buffer_views[a.view as int].stream->Some_0;
    assert(after.bin.subrange(s.offset as int, s.offset + s.length) =~= b.bin.subrange(
        s.offset as int,
        s.offset + s.length,
    )) by {
        assert forall|i: int| 0 <= i < s.length implies #[trigger] after.bin[s.offset + i]
            == b.bin[s.offset + i] by {
            assert(after.bin.take(b.bin.len() as int)[s.offset + i] == after.bin[s.offset + i]);
        }
    }
}

/// Being at the same places goes on.
proof fn lemma_extends(a: BuilderView, b: BuilderView, c: BuilderView)
    requires
        extends(a, b),
        extends(b, c),
    ensures
        extends(a, c),
{
    assert(c.bin.take(a.bin.len() as int) =~= b.bin.take(a.bin.len() as int));
    assert(c.buffer_views.take(a.buffer_views.len() as int) =~= b.buffer_views.take(
        a.buffer_views.len() as int,
    ));
    assert(c.accessors.take(a.accessors.len() as int) =~= b.accessors.take(
        a.accessors.len() as int,
    ));
}

/// An attribute more is read by the last accessor; all else stays.
pub proof fn an_attribute_is_read_by_its_accessor(
    b: BuilderView,
    raw: Seq<u8>,
    count: int,
    element: int,
    component_type: u32,
    shape: Shape,
    normalized: bool,
    bounds: Option<Bounds>,
)
    requires
        0 <= count <= usize::MAX,
        0 <= element <= usize::MAX,
        0 <= count * element,
        0 <= b.fallback_bytes,
        b.fallback_bytes + count * element + 3 <= usize::MAX,
        b.buffer_views.len() < u32::MAX,
        crate::gltf::with_attribute(
            b,
            raw,
            count,
            element,
            component_type,
            shape,
            normalized,
            bounds,
        ).bin.len() <= usize::MAX,
    ensures
        ({
            let after = crate::gltf::with_attribute(
                b,
                raw,
                count,
                element,
                component_type,
                shape,
                normalized,
                bounds,
            );
            let k = b.accessors.len() as int;
            &&& reads(after, k, raw, count, element, component_type as int, shape, normalized)
            &&& after.accessors[k].bounds == bounds
            &&& after.accessors.len() == k + 1
            &&& after.buffer_views.len() == b.buffer_views.len() + 1
            &&& extends(b, after)
            &&& keeps_the_rest(b, after)
            &&& after.fallback_bytes <= b.fallback_bytes + 3 + count * element
            &&& b.fallback_bytes <= after.fallback_bytes
            &&& after.used_meshopt
        }),
{
    let after = crate::gltf::with_attribute(
        b,
        raw,
        count,
        element,
        component_type,
        shape,
        normalized,
        bounds,
    );
    let compressed = crate::gltf::attribute_stream(raw, count, element);
    assert(after.bin.len() == crate::gltf::padded(b.bin, 0).len() + compressed.len());
    let start = crate::gltf::padded(b.bin, 0);
    assert(after.buffer_views.take(b.buffer_views.len() as int) =~= b.buffer_views);
    assert(after.accessors.take(b.accessors.len() as int) =~= b.accessors);
    assert(after.bin.take(b.bin.len() as int) =~= b.bin);
    assert(after.bin.subrange(start.len() as int, (start.len() + compressed.len()) as int)
        =~= compressed);
}

/// Positions are read as short words from the centre where all are near enough, with the least and
/// the greatest of them as bounds; else as singles, with the bounds that were given.
pub proof fn positions_are_read_by_their_accessor(b: BuilderView, s: Streams)
    requires
        s.positions@.len() == s.grid@.len(),
        12 * s.positions@.len() <= isize::MAX / 4,
        0 <= b.fallback_bytes,
        b.fallback_bytes + 12 * s.positions@.len() + 3 <= usize::MAX,
        b.buffer_views.len() < u32::MAX,
        crate::gltf::with_positions(b, s.positions@, s.grid@, s.center, s.min, s.max).bin.len()
            <= usize::MAX,
    ensures
        ({
            let after = crate::gltf::with_positions(
                b,
                s.positions@,
                s.grid@,
                s.center,
                s.min,
                s.max,
            );
            let k = b.accessors.len() as int;
            let n = s.positions@.len() as int;
            let near = crate::gltf::on_grid(s.grid@, s.center);
            &&& near ==> reads(
                after,
                k,
                crate::bytes::all_bytes16(crate::gltf::grid_words(s.grid@, s.center)),
                n,
                8,
                5122,
                Shape::Vec3,
                false,
            )
            &&& near ==> after.accessors[k].bounds == Some(
                crate::gltf::grid_bounds(s.grid@, s.center),
            )
            &&& near ==> after.used_quantization
            &&& !near ==> reads(
                after,
                k,
                crate::bytes::all_bytes32(crate::gltf::rows32(s.positions@)),
                n,
                12,
                5126,
                Shape::Vec3,
                false,
            )
            &&& !near ==> after.accessors[k].bounds == Some(
                Bounds::Singles { min: s.min, max: s.max },
            )
            &&& after.float_meshes == b.float_meshes + if near {
                0int
            } else {
                1
            }
            &&& after.accessors.len() == k + 1
            &&& after.buffer_views.len() == b.buffer_views.len() + 1
            &&& extends(b, after)
            &&& b.fallback_bytes <= after.fallback_bytes <= b.fallback_bytes + 3 + 12 * n
        }),
{
    if crate::gltf::on_grid(s.grid@, s.center) {
        an_attribute_is_read_by_its_accessor(
            b,
            crate::bytes::all_bytes16(crate::gltf::grid_words(s.grid@, s.center)),
            s.grid@.len() as int,
            8,
            crate::gltf::COMPONENT_TYPE_SHORT,
            Shape::Vec3,
            false,
            Some(crate::gltf::grid_bounds(s.grid@, s.center)),
        );
    } else {
        an_attribute_is_read_by_its_accessor(
            b,
            crate::bytes::all_bytes32(crate::gltf::rows32(s.positions@)),
            s.positions@.len() as int,
            12,
            crate::gltf::COMPONENT_TYPE_FLOAT,
            Shape::Vec3,
            false,
            Some(Bounds::Singles { min: s.min, max: s.max }),
        );
    }
}

/// Indices are read as short words where all fit, else as words. Those of triangles are compressed;
/// others stand as they are.
pub proof fn indices_are_read_by_their_accessor(b: BuilderView, v: Seq<u32>)
    requires
        4 * v.len() <= isize::MAX / 4,
        0 <= b.fallback_bytes,
        b.fallback_bytes + 4 * v.len() + 3 <= usize::MAX,
        b.buffer_views.len() < u32::MAX,
        crate::gltf::with_indices(b, v).bin.len() <= usize::MAX,
    ensures
        ({
            let after = crate::gltf::with_indices(b, v);
            let k = b.accessors.len() as int;
            let a = after.accessors[k];
            let w = after.buffer_views[a.view as int];
            let narrow = forall|i: int| 0 <= i < v.len() ==> #[trigger] v[i] < 65535;
            let element = if narrow {
                2int
            } else {
                4
            };
            &&& after.accessors.len() == k + 1
            &&& a.view == b.buffer_views.len()
            &&& a.view < after.buffer_views.len()
            &&& a.count == v.len()
            &&& a.shape == Shape::Scalar
            &&& !a.normalized
            &&& a.bounds is None
            &&& a.component_type == if narrow {
                5123int
            } else {
                5125
            }
            &&& w.target == Some(34963u32)
            &&& w.stride is None
            &&& w.length == v.len() * element
            &&& if v.len() > 0 && v.len() % 3 == 0 {
                w.stream matches Some(s) && {
                    &&& s.triangles
                    &&& s.count == v.len()
                    &&& s.element == element
                    &&& s.offset + s.length <= after.bin.len()
                    &&& after.bin.subrange(s.offset as int, s.offset + s.length)
                        == crate::codec::encoded_indices(
                        v,
                        (crate::gltf::greatest_index(v) + 1) as nat,
                    )
                }
            } else {
                &&& w.stream is None
                &&& w.offset + w.length <= after.bin.len()
                &&& forall|i: int|
                    #![trigger v[i]]
                    0 <= i < v.len() ==> if narrow {
                        crate::bytes::le16(after.bin, w.offset + 2 * i) == v[i]
                    } else {
                        crate::bytes::le32(after.bin, w.offset + 4 * i) == v[i]
                    }
            }
            &&& extends(b, after)
            &&& keeps_the_rest(b, after)
        }),
{
    let after = crate::gltf::with_indices(b, v);
    let start = crate::gltf::padded(b.bin, 0);
    assert(after.buffer_views.take(b.buffer_views.len() as int) =~= b.buffer_views);
    assert(after.accessors.take(b.accessors.len() as int) =~= b.accessors);
    assert(after.bin.take(b.bin.len() as int) =~= b.bin);
    let narrow = crate::gltf::fits_u16(v);
    if crate::gltf::is_triangle_list(v) {
        let compressed = crate::codec::encoded_indices(
            v,
            (crate::gltf::greatest_index(v) + 1) as nat,
        );
        assert(after.bin.subrange(start.len() as int, (start.len() + compressed.len()) as int)
            =~= compressed);
    } else if narrow {
        let bytes = crate::bytes::all_bytes16(crate::gltf::narrowed(v));
        lemma_bytes16(crate::gltf::narrowed(v));
        assert forall|i: int| 0 <= i < v.len() implies crate::bytes::le16(
            after.bin,
            start.len() + 2 * i,
        ) == #[trigger] v[i] by {
            short_words_are_written_in_order(crate::gltf::narrowed(v), i);
            assert(crate::gltf::narrowed(v)[i] == v[i]);
            assert(after.bin[start.len() + 2 * i] == bytes[2 * i]);
            assert(after.bin[start.len() + 2 * i + 1] == bytes[2 * i + 1]);
        }
    } else {
        let bytes = crate::bytes::all_bytes32(v);
        lemma_bytes32(v);
        assert forall|i: int| 0 <= i < v.len() implies crate::bytes::le32(
            after.bin,
            start.len() + 4 * i,
        ) == #[trigger] v[i] by {
            words_are_written_in_order(v, i);
            assert(after.bin[start.len() + 4 * i] == bytes[4 * i]);
            assert(after.bin[start.len() + 4 * i + 1] == bytes[4 * i + 1]);
            assert(after.bin[start.len() + 4 * i + 2] == bytes[4 * i + 2]);
            assert(after.bin[start.len() + 4 * i + 3] == bytes[4 * i + 3]);
        }
    }
}

/// Each accessor that a geometry names reads the stream it is named for: the positions, the normals,
/// the coordinates, those in the lightmap and the weights of the second layer where there are any, and
/// the indices. What was there before stays.
#[verifier::spinoff_prover]
#[verifier::rlimit(40)]
pub proof fn a_geometry_names_the_accessors_of_its_streams(
    b: BuilderView,
    indices: Seq<u32>,
    s: Streams,
)
    requires
        s.grid@.len() == s.positions@.len(),
        s.normals@.len() == s.positions@.len(),
        s.uv0@.len() == s.positions@.len(),
        s.uv0_quantized@.len() == s.positions@.len(),
        s.uv1 matches Some(v) ==> v@.len() == s.positions@.len(),
        s.blend matches Some(v) ==> v@.len() == s.positions@.len(),
        crate::geometry::can_take_streams(b, indices, s),
        0 <= b.fallback_bytes,
        crate::geometry::with_geometry(b, indices, s).bin.len() <= usize::MAX,
    ensures
        ({
            let after = crate::geometry::with_geometry(b, indices, s);
            let g = crate::geometry::built_geometry(b, indices, s);
            let n = s.positions@.len() as int;
            &&& if crate::gltf::on_grid(s.grid@, s.center) {
                g.on_grid && reads(
                    after,
                    g.position as int,
                    crate::bytes::all_bytes16(crate::gltf::grid_words(s.grid@, s.center)),
                    n,
                    8,
                    5122,
                    Shape::Vec3,
                    false,
                )
            } else {
                !g.on_grid && reads(
                    after,
                    g.position as int,
                    crate::bytes::all_bytes32(crate::gltf::rows32(s.positions@)),
                    n,
                    12,
                    5126,
                    Shape::Vec3,
                    false,
                )
            }
            &&& reads(
                after,
                g.normal as int,
                crate::gltf::normal_bytes(s.normals@),
                n,
                4,
                5120,
                Shape::Vec3,
                true,
            )
            &&& if crate::gltf::all_in_unit(s.uv0@) {
                reads(
                    after,
                    g.uv0 as int,
                    crate::bytes::all_bytes16(crate::gltf::rows16(s.uv0_quantized@)),
                    n,
                    4,
                    5123,
                    Shape::Vec2,
                    true,
                )
            } else {
                reads(
                    after,
                    g.uv0 as int,
                    crate::bytes::all_bytes32(crate::gltf::rows32(s.uv0@)),
                    n,
                    8,
                    5126,
                    Shape::Vec2,
                    false,
                )
            }
            &&& match s.uv1 {
                Some(v) => g.uv1 matches Some(k) && reads(
                    after,
                    k as int,
                    crate::bytes::all_bytes16(crate::gltf::rows16(v@)),
                    n,
                    4,
                    5123,
                    Shape::Vec2,
                    true,
                ),
                None => g.uv1 is None,
            }
            &&& match s.blend {
                Some(v) => g.blend matches Some(k) && reads(
                    after,
                    k as int,
                    crate::bytes::all_bytes32(crate::gltf::clamped(v@)),
                    n,
                    4,
                    5126,
                    Shape::Scalar,
                    false,
                ),
                None => g.blend is None,
            }
            &&& g.indices == after.accessors.len() - 1
            &&& after.accessors[g.indices as int].count == indices.len()
            &&& after.accessors[g.indices as int].shape == Shape::Scalar
            &&& extends(b, after)
            &&& 3 * g.triangles <= indices.len() < 3 * g.triangles + 3
        }),
{
    let n = s.positions@.len() as int;
    let k = b.accessors.len() as int;
    let near = crate::gltf::on_grid(s.grid@, s.center);
    let b1 = crate::gltf::with_positions(b, s.positions@, s.grid@, s.center, s.min, s.max);
    let b2 = crate::geometry::with_normals(b1, s.normals@);
    let b3 = crate::geometry::with_uv0(b2, s.uv0@, s.uv0_quantized@);
    let b4 = match s.uv1 {
        Some(v) => crate::geometry::with_uv_words(b3, v@),
        None => b3,
    };
    let b5 = match s.blend {
        Some(v) => crate::geometry::with_blend(b4, v@),
        None => b4,
    };
    let after = crate::gltf::with_indices(b5, indices);
    assert(after == crate::geometry::with_geometry(b, indices, s));
    assert(b1.bin.len() <= b2.bin.len() <= b3.bin.len() <= b4.bin.len() <= b5.bin.len()
        <= after.bin.len());
    positions_are_read_by_their_accessor(b, s);
    an_attribute_is_read_by_its_accessor(
        b1,
        crate::gltf::normal_bytes(s.normals@),
        n,
        4,
        crate::gltf::COMPONENT_TYPE_BYTE,
        Shape::Vec3,
        true,
        None,
    );
    if crate::gltf::all_in_unit(s.uv0@) {
        an_attribute_is_read_by_its_accessor(
            b2,
            crate::bytes::all_bytes16(crate::gltf::rows16(s.uv0_quantized@)),
            n,
            4,
            crate::gltf::COMPONENT_TYPE_UNSIGNED_SHORT,
            Shape::Vec2,
            true,
            None,
        );
    } else {
        an_attribute_is_read_by_its_accessor(
            b2,
            crate::bytes::all_bytes32(crate::gltf::rows32(s.uv0@)),
            n,
            8,
            crate::gltf::COMPONENT_TYPE_FLOAT,
            Shape::Vec2,
            false,
            None,
        );
    }
    if s.uv1 is Some {
        an_attribute_is_read_by_its_accessor(
            b3,
            crate::bytes::all_bytes16(crate::gltf::rows16(s.uv1->Some_0@)),
            n,
            4,
            crate::gltf::COMPONENT_TYPE_UNSIGNED_SHORT,
            Shape::Vec2,
            true,
            None,
        );
    } else {
        lemma_extends_itself(b3);
    }
    if s.blend is Some {
        an_attribute_is_read_by_its_accessor(
            b4,
            crate::bytes::all_bytes32(crate::gltf::clamped(s.blend->Some_0@)),
            n,
            4,
            crate::gltf::COMPONENT_TYPE_FLOAT,
            Shape::Scalar,
            false,
            None,
        );
    } else {
        lemma_extends_itself(b4);
    }
    indices_are_read_by_their_accessor(b5, indices);
    lemma_extends(b4, b5, after);
    lemma_extends(b3, b4, after);
    lemma_extends(b2, b3, after);
    lemma_extends(b1, b2, after);
    lemma_extends(b, b1, after);
    if near {
        lemma_still_reads(
            b1,
            after,
            k,
            crate::bytes::all_bytes16(crate::gltf::grid_words(s.grid@, s.center)),
            n,
            8,
            5122,
            Shape::Vec3,
            false,
        );
    } else {
        lemma_still_reads(
            b1,
            after,
            k,
            crate::bytes::all_bytes32(crate::gltf::rows32(s.positions@)),
            n,
            12,
            5126,
            Shape::Vec3,
            false,
        );
    }
    lemma_still_reads(
        b2,
        after,
        k + 1,
        crate::gltf::normal_bytes(s.normals@),
        n,
        4,
        5120,
        Shape::Vec3,
        true,
    );
    if crate::gltf::all_in_unit(s.uv0@) {
        lemma_still_reads(
            b3,
            after,
            k + 2,
            crate::bytes::all_bytes16(crate::gltf::rows16(s.uv0_quantized@)),
            n,
            4,
            5123,
            Shape::Vec2,
            true,
        );
    } else {
        lemma_still_reads(
            b3,
            after,
            k + 2,
            crate::bytes::all_bytes32(crate::gltf::rows32(s.uv0@)),
            n,
            8,
            5126,
            Shape::Vec2,
            false,
        );
    }
    if s.uv1 is Some {
        lemma_still_reads(
            b4,
            after,
            k + 3,
            crate::bytes::all_bytes16(crate::gltf::rows16(s.uv1->Some_0@)),
            n,
            4,
            5123,
            Shape::Vec2,
            true,
        );
    }
    if s.blend is Some {
        lemma_still_reads(
            b5,
            after,
            b4.accessors.len() as int,
            crate::bytes::all_bytes32(crate::gltf::clamped(s.blend->Some_0@)),
            n,
            4,
            5126,
            Shape::Scalar,
            false,
        );
    }
}

/// A document has all that it has.
proof fn lemma_extends_itself(b: BuilderView)
    ensures
        extends(b, b),
{
    assert(b.bin.take(b.bin.len() as int) =~= b.bin);
    assert(b.buffer_views.take(b.buffer_views.len() as int) =~= b.buffer_views);
    assert(b.accessors.take(b.accessors.len() as int) =~= b.accessors);
}

/// Coordinates are written in parts of the unit only where each of them lies in it.
pub proof fn coordinates_outside_the_unit_stay_singles(v: Seq<[u32; 2]>)
    ensures
        crate::gltf::all_in_unit(v) == (forall|i: int, c: int|
            0 <= i < v.len() && 0 <= c < 2 ==> {
                ||| #[trigger] v[i]@[c] <= 0x3F80_0000
                ||| v[i]@[c] == 0x8000_0000
            }),
{
    if crate::gltf::all_in_unit(v) {
        assert forall|i: int, c: int| 0 <= i < v.len() && 0 <= c < 2 implies {
            ||| #[trigger] v[i]@[c] <= 0x3F80_0000
            ||| v[i]@[c] == 0x8000_0000
        } by {
            assert(crate::gltf::unit_range(v[i]@[c]));
        }
    }
}

/// The light of an instance is that of its vertices in order; where a vertex has none it is nought,
/// and as many are counted.
pub proof fn vertices_without_light_are_dark_and_counted(lpv: Seq<Option<[u16; 4]>>, i: int)
    requires
        0 <= i < lpv.len(),
    ensures
        crate::export::lights_of(lpv).len() == lpv.len(),
        lpv[i] matches Some(v) ==> crate::export::lights_of(lpv)[i] == v,
        lpv[i] is None ==> crate::export::lights_of(lpv)[i]@ == seq![0u16, 0u16, 0u16, 0u16],
{
    assert([0u16, 0u16, 0u16, 0u16]@ =~= seq![0u16, 0u16, 0u16, 0u16]);
}

/// The vertices without light are counted one by one.
pub proof fn dark_vertices_are_counted(a: Seq<Option<[u16; 4]>>, b: Seq<Option<[u16; 4]>>)
    ensures
        crate::export::dark_count(a + b) == crate::export::dark_count(a)
            + crate::export::dark_count(b),
        crate::export::dark_count(Seq::empty()) == 0,
        a.len() == 1 ==> crate::export::dark_count(a) == if a[0] is None {
            1int
        } else {
            0
        },
    decreases b.len(),
{
    if b.len() == 0 {
        assert(a + b =~= a);
    } else {
        dark_vertices_are_counted(a, b.drop_last());
        assert((a + b).drop_last() =~= a + b.drop_last());
    }
    if a.len() == 1 {
        assert(crate::export::dark_count(a.drop_last()) == 0);
    }
}

} // verus!
