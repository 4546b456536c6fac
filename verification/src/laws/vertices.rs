//! What a decoded geometry holds, in terms of the bytes of the buffers that it was decoded from.

use crate::attributes::{Folded, NormalView, Scalar};
use crate::buffer::{BufferView, FieldView};
use crate::format::DxgiFormat;
use crate::mesh::{DrawCallView, MeshView};
use vstd::prelude::*;

verus! {

/// Two bytes at a place, the low byte first.
pub open spec fn pair_at(data: Seq<u8>, at: int) -> int {
    data[at] + 256 * data[at + 1]
}

/// Four bytes at a place, the low byte first.
pub open spec fn four_at(data: Seq<u8>, at: int) -> int {
    data[at] + 256 * data[at + 1] + 65536 * data[at + 2] + 16777216 * data[at + 3]
}

/// Where a buffer stores a field of a vertex.
pub open spec fn stored_at(b: BufferView, f: FieldView, vertex: int) -> int {
    vertex * b.element_size + f.offset
}

/// Whether a number is component `c` of what is stored at a place in a format.
pub open spec fn is_component(data: Seq<u8>, at: int, format: DxgiFormat, c: int, s: Scalar) -> bool {
    match format {
        DxgiFormat::R32Float => s == Scalar::Single(four_at(data, at + 4 * c) as u32),
        DxgiFormat::R32G32Float => s == Scalar::Single(four_at(data, at + 4 * c) as u32),
        DxgiFormat::R32G32B32Float => s == Scalar::Single(four_at(data, at + 4 * c) as u32),
        DxgiFormat::R32G32B32A32Float => s == Scalar::Single(four_at(data, at + 4 * c) as u32),
        DxgiFormat::R16G16Float => s == Scalar::Half(pair_at(data, at + 2 * c) as u16),
        DxgiFormat::R16G16B16A16Float => s == Scalar::Half(pair_at(data, at + 2 * c) as u16),
        DxgiFormat::R16G16Unorm => s == Scalar::Ratio(pair_at(data, at + 2 * c) as i32, 65535),
        DxgiFormat::R16G16Snorm => s == Scalar::Ratio(
            ((pair_at(data, at + 2 * c) as u16) as i16) as i32,
            32767,
        ),
        DxgiFormat::R8G8B8A8Unorm => s == Scalar::Ratio(data[at + c] as i32, 255),
        _ => false,
    }
}

/// How many bytes a format stores for a vertex, and how many components they are.
pub open spec fn layout_of(format: DxgiFormat) -> Option<(int, int)> {
    match format {
        DxgiFormat::R32Float => Some((4int, 1int)),
        DxgiFormat::R32G32Float => Some((8int, 2int)),
        DxgiFormat::R32G32B32Float => Some((12int, 3int)),
        DxgiFormat::R32G32B32A32Float => Some((16int, 4int)),
        DxgiFormat::R16G16Float => Some((4int, 2int)),
        DxgiFormat::R16G16B16A16Float => Some((8int, 4int)),
        DxgiFormat::R16G16Unorm => Some((4int, 2int)),
        DxgiFormat::R16G16Snorm => Some((4int, 2int)),
        DxgiFormat::R8G8B8A8Unorm => Some((4int, 4int)),
        _ => None,
    }
}

/// A component that is read of a vertex's bytes is stored in them.
proof fn lemma_component(format: DxgiFormat, data: Seq<u8>, at: int, c: int)
    requires
        layout_of(format) is Some,
        0 <= at,
        at + layout_of(format)->Some_0.0 <= data.len(),
        0 <= c < layout_of(format)->Some_0.1,
    ensures
        ({
            let k = crate::attributes::components_of(format);
            let (len, n) = layout_of(format)->Some_0;
            let b = data.subrange(at, at + len);
            &&& k is Some
            &&& k->Some_0.1 == n
            &&& crate::attributes::component_width(k->Some_0.0) * n == len
            &&& is_component(data, at, format, c, crate::attributes::scalar_at(k->Some_0.0, b, c))
        }),
{
    let (len, n) = layout_of(format)->Some_0;
    let b = data.subrange(at, at + len);
    assert(forall|i: int| 0 <= i < len ==> b[i] == data[at + i]);
    let k = crate::attributes::components_of(format)->Some_0.0;
    let w = crate::attributes::component_width(k);
    if w == 4 {
        assert(crate::bytes::le32(b, 4 * c) == four_at(data, at + 4 * c));
    } else if w == 2 {
        assert(crate::bytes::le16(b, 2 * c) == pair_at(data, at + 2 * c));
        crate::laws::trees::signs_are_read_off_the_top(0, pair_at(data, at + 2 * c) as u16);
    }
}

/// An attribute of a vertex is what the buffer stores for the vertex in the attribute's field: as many
/// components as the format has, in the order in which they stand.
pub proof fn an_attribute_is_what_is_stored(b: BufferView, f: FieldView, semantic: Seq<char>, vertex: int, c: int)
    requires
        crate::attributes::attribute_of(b, f, semantic) is Ok,
        0 <= vertex < b.element_count,
        layout_of(f.format) is Some ==> 0 <= c < layout_of(f.format)->Some_0.1,
    ensures
        layout_of(f.format) is Some,
        ({
            let (n, values) = crate::attributes::attribute_of(b, f, semantic)->Ok_0;
            &&& n == layout_of(f.format)->Some_0.1
            &&& values.len() == b.element_count * n
            &&& stored_at(b, f, vertex) + layout_of(f.format)->Some_0.0 <= b.data.len()
            &&& is_component(b.data, stored_at(b, f, vertex), f.format, c, values[vertex * n + c])
        }),
{
    crate::attributes::attribute_holds_every_vertex(b, f, semantic, vertex);
    let (n, values) = crate::attributes::attribute_of(b, f, semantic)->Ok_0;
    let (kind, count) = crate::attributes::components_of(f.format)->Some_0;
    let at = stored_at(b, f, vertex);
    assert(at >= 0) by (nonlinear_arith)
        requires
            at == vertex * b.element_size + f.offset,
            vertex >= 0,
    ;
    lemma_component(f.format, b.data, at, c);
    let len = layout_of(f.format)->Some_0.0;
    let row = crate::attributes::row_of(kind, count, b.data.subrange(at, at + len));
    assert((vertex + 1) * n == vertex * n + n && 0 <= vertex * n && (vertex + 1) * n <= values.len())
        by (nonlinear_arith)
        requires
            0 <= vertex < b.element_count,
            n >= 0,
            values.len() == b.element_count * n,
    ;
    assert(values.subrange(vertex * n, (vertex + 1) * n)[c] == values[vertex * n + c]);
    assert(row[c] == values[vertex * n + c]);
}

/// Whether `s` is the stream that holds an attribute of a draw call: of the buffers that the draw call
/// reads, in its order, the first that has a field with the name, whatever its case, and the index; of
/// its fields the first such.
pub open spec fn is_stream(
    mesh: MeshView,
    dc: DrawCallView,
    name: Seq<char>,
    index: i32,
    j: int,
    k: int,
) -> bool {
    &&& 0 <= j < dc.vertex_buffers.len()
    &&& is_field(mesh, dc.vertex_buffers[j] as int, name, index, k)
    &&& forall|i: int| 0 <= i < k ==> !#[trigger] is_field(
        mesh,
        dc.vertex_buffers[j] as int,
        name,
        index,
        i,
    )
    &&& forall|l: int, i: int|
        0 <= l < j ==> !#[trigger] is_field(mesh, dc.vertex_buffers[l] as int, name, index, i)
}

/// Whether field `i` of a buffer has a name, whatever its case, and an index.
pub open spec fn is_field(mesh: MeshView, b: int, name: Seq<char>, index: i32, i: int) -> bool {
    &&& 0 <= b < mesh.vertex_buffers.len()
    &&& 0 <= i < mesh.vertex_buffers[b].fields.len()
    &&& mesh.vertex_buffers[b].fields[i].semantic_index == index
    &&& crate::text::same_ignoring_case(mesh.vertex_buffers[b].fields[i].semantic_name, name)
}

/// Where the search for a field of a buffer ends.
proof fn lemma_field(mesh: MeshView, b: int, name: Seq<char>, index: i32, from: int)
    requires
        0 <= b < mesh.vertex_buffers.len(),
        0 <= from <= mesh.vertex_buffers[b].fields.len(),
        forall|i: int| 0 <= i < from ==> !#[trigger] is_field(mesh, b, name, index, i),
    ensures
        match crate::geometry::field_among(mesh.vertex_buffers[b].fields, name, index, from) {
            Some(f) => exists|k: int|
                #[trigger] is_field(mesh, b, name, index, k) && mesh.vertex_buffers[b].fields[k]
                    == f && forall|i: int|
                    0 <= i < k ==> !#[trigger] is_field(mesh, b, name, index, i),
            None => forall|i: int| !#[trigger] is_field(mesh, b, name, index, i),
        },
    decreases mesh.vertex_buffers[b].fields.len() - from,
{
    let fields = mesh.vertex_buffers[b].fields;
    if from < fields.len() {
        if is_field(mesh, b, name, index, from) {
            assert(fields[from] == fields[from]);
        } else {
            lemma_field(mesh, b, name, index, from + 1);
        }
    }
}

/// Where the search for a stream ends.
proof fn lemma_stream(mesh: MeshView, dc: DrawCallView, name: Seq<char>, index: i32, from: int)
    requires
        0 <= from <= dc.vertex_buffers.len(),
        forall|l: int, i: int|
            0 <= l < from ==> !#[trigger] is_field(
                mesh,
                dc.vertex_buffers[l] as int,
                name,
                index,
                i,
            ),
    ensures
        match crate::geometry::stream_from(mesh, dc.vertex_buffers, name, index, from) {
            Some(s) => exists|j: int, k: int|
                #[trigger] is_stream(mesh, dc, name, index, j, k) && s.0 == dc.vertex_buffers[j]
                    && s.1 == mesh.vertex_buffers[s.0].fields[k],
            None => forall|l: int, i: int|
                0 <= l < dc.vertex_buffers.len() ==> !#[trigger] is_field(
                    mesh,
                    dc.vertex_buffers[l] as int,
                    name,
                    index,
                    i,
                ),
        },
    decreases dc.vertex_buffers.len() - from,
{
    if from < dc.vertex_buffers.len() {
        let b = dc.vertex_buffers[from] as int;
        if b < mesh.vertex_buffers.len() {
            lemma_field(mesh, b, name, index, 0);
            match crate::geometry::field_among(mesh.vertex_buffers[b].fields, name, index, 0) {
                Some(f) => {
                    let k = choose|k: int|
                        #[trigger] is_field(mesh, b, name, index, k)
                            && mesh.vertex_buffers[b].fields[k] == f && forall|i: int|
                            0 <= i < k ==> !#[trigger] is_field(mesh, b, name, index, i);
                    assert(is_stream(mesh, dc, name, index, from, k));
                },
                None => {
                    lemma_stream(mesh, dc, name, index, from + 1);
                },
            }
        } else {
            lemma_stream(mesh, dc, name, index, from + 1);
        }
    }
}

/// An attribute is read of the first buffer of the draw call that has it.
pub proof fn an_attribute_has_its_stream(mesh: MeshView, dc: DrawCallView, name: Seq<char>, index: i32)
    ensures
        match crate::geometry::stream_of(mesh, dc, name, index) {
            Some(s) => exists|j: int, k: int|
                #[trigger] is_stream(mesh, dc, name, index, j, k) && s.0 == dc.vertex_buffers[j]
                    && s.1 == mesh.vertex_buffers[s.0].fields[k],
            None => forall|l: int, i: int|
                0 <= l < dc.vertex_buffers.len() ==> !#[trigger] is_field(
                    mesh,
                    dc.vertex_buffers[l] as int,
                    name,
                    index,
                    i,
                ),
        },
{
    lemma_stream(mesh, dc, name, index, 0);
}

/// A draw call draws the vertices that its index buffer stores: as many as it says, from the start
/// that it says on, each moved by its base vertex.
pub proof fn a_draw_call_draws_what_its_indices_store(dc: DrawCallView, mesh: MeshView, k: int)
    requires
        crate::mesh::drawn_vertices(dc, mesh) is Ok,
        0 <= k < dc.index_count,
    ensures
        ({
            let drawn = crate::mesh::drawn_vertices(dc, mesh)->Ok_0;
            let b = mesh.index_buffers[dc.index_buffer as int];
            let i = dc.start_index + k;
            &&& dc.index_buffer < mesh.index_buffers.len()
            &&& dc.start_index >= 0
            &&& drawn.len() == dc.index_count
            &&& b.element_size == 2 || b.element_size == 4
            &&& (i + 1) * b.element_size <= b.data.len()
            &&& b.element_size == 2 ==> drawn[k] == pair_at(b.data, 2 * i) + dc.base_vertex
            &&& b.element_size == 4 ==> drawn[k] == four_at(b.data, 4 * i) + dc.base_vertex
        }),
{
    let b = mesh.index_buffers[dc.index_buffer as int];
    let bound = crate::mesh::smallest_count(mesh.vertex_buffers, dc.vertex_buffers);
    let step = crate::mesh::index_step(
        b.data,
        b.element_size as int,
        dc.start_index as int,
        dc.base_vertex,
        bound,
    );
    crate::error::lemma_gathered(step, dc.index_count as nat);
    let drawn = crate::mesh::drawn_vertices(dc, mesh)->Ok_0;
    assert(step(k) == Ok::<u32, crate::error::Fault>(drawn[k]));
}

/// Where no step is refused, everything is gathered.
pub proof fn lemma_all_gathered<T>(
    step: spec_fn(int) -> Result<T, crate::error::Fault>,
    n: nat,
)
    requires
        forall|i: int| 0 <= i < n ==> (#[trigger] step(i)) is Ok,
    ensures
        crate::error::gather(step, n) is Ok,
    decreases n,
{
    if n > 0 {
        lemma_all_gathered(step, (n - 1) as nat);
        assert(step(n - 1) is Ok);
    }
}

/// The smallest buffer is one that the draw call reads.
proof fn lemma_smallest(buffers: Seq<BufferView>, handles: Seq<usize>)
    ensures
        match crate::mesh::smallest_count(buffers, handles) {
            Some(n) => exists|j: int|
                0 <= j < handles.len() && #[trigger] handles[j] < buffers.len()
                    && buffers[handles[j] as int].element_count == n,
            None => true,
        },
    decreases handles.len(),
{
    if handles.len() > 0 {
        let front = handles.drop_last();
        lemma_smallest(buffers, front);
        let last = handles.len() - 1;
        if handles[last] < buffers.len() && crate::mesh::smallest_count(buffers, handles) == Some(
            buffers[handles[last] as int].element_count as usize,
        ) {
            assert(handles[last] < buffers.len());
        } else if crate::mesh::smallest_count(buffers, handles) is Some {
            let n = crate::mesh::smallest_count(buffers, front)->Some_0;
            let j = choose|j: int|
                0 <= j < front.len() && #[trigger] front[j] < buffers.len()
                    && buffers[front[j] as int].element_count == n;
            assert(handles[j] == front[j]);
        }
    }
}

/// The index that a buffer stores at a place.
pub open spec fn index_at(b: BufferView, i: int) -> int {
    if b.element_size == 2 {
        pair_at(b.data, 2 * i)
    } else {
        four_at(b.data, 4 * i)
    }
}

/// A draw call is not refused where its buffers hold what it asks for: its indices are stored, and
/// each gives a vertex that every buffer it reads has.
pub proof fn a_draw_call_within_its_buffers_is_drawn(dc: DrawCallView, mesh: MeshView)
    requires
        dc.index_buffer < mesh.index_buffers.len(),
        0 <= dc.start_index <= usize::MAX,
        0 <= dc.index_count <= usize::MAX,
        ({
            let b = mesh.index_buffers[dc.index_buffer as int];
            &&& b.element_size == 2 || b.element_size == 4
            &&& (dc.start_index + dc.index_count) * b.element_size <= b.data.len()
            &&& forall|k: int|
                0 <= k < dc.index_count ==> 0 <= #[trigger] index_at(b, dc.start_index + k)
                    + dc.base_vertex <= u32::MAX
            &&& forall|k: int, j: int|
                0 <= k < dc.index_count && 0 <= j < dc.vertex_buffers.len() && dc.vertex_buffers[j]
                    < mesh.vertex_buffers.len() ==> #[trigger] index_at(b, dc.start_index + k)
                    + dc.base_vertex < mesh.vertex_buffers[#[trigger] dc.vertex_buffers[j] as int].element_count
        }),
    ensures
        crate::mesh::drawn_vertices(dc, mesh) is Ok,
{
    let b = mesh.index_buffers[dc.index_buffer as int];
    let bound = crate::mesh::smallest_count(mesh.vertex_buffers, dc.vertex_buffers);
    lemma_smallest(mesh.vertex_buffers, dc.vertex_buffers);
    let step = crate::mesh::index_step(
        b.data,
        b.element_size as int,
        dc.start_index as int,
        dc.base_vertex,
        bound,
    );
    let (total, size, len) = (
        dc.start_index + dc.index_count,
        b.element_size as int,
        b.data.len() as int,
    );
    assert(total <= len / size) by (nonlinear_arith)
        requires
            total * size <= len,
            size == 2 || size == 4,
    ;
    assert forall|k: int| 0 <= k < dc.index_count implies (#[trigger] step(k)) is Ok by {
        let i = dc.start_index + k;
        let x = index_at(b, i);
        assert(crate::buffer::stored_index(b.data, b.element_size as int, i) == Some(x as u32));
        if bound is Some {
            let j = choose|j: int|
                0 <= j < dc.vertex_buffers.len() && #[trigger] dc.vertex_buffers[j]
                    < mesh.vertex_buffers.len()
                    && mesh.vertex_buffers[dc.vertex_buffers[j] as int].element_count
                    == bound->Some_0;
            assert(index_at(b, dc.start_index + k) + dc.base_vertex
                < mesh.vertex_buffers[dc.vertex_buffers[j] as int].element_count);
        }
    }
    lemma_all_gathered(step, dc.index_count as nat);
}

/// The bound of a draw call's vertices is that of the smallest buffer that it reads.
pub proof fn no_vertex_lies_outside_a_buffer(dc: DrawCallView, mesh: MeshView, k: int, j: int)
    requires
        crate::mesh::drawn_vertices(dc, mesh) is Ok,
        0 <= k < dc.index_count,
        0 <= j < dc.vertex_buffers.len(),
        dc.vertex_buffers[j] < mesh.vertex_buffers.len(),
    ensures
        crate::mesh::drawn_vertices(dc, mesh)->Ok_0[k]
            < mesh.vertex_buffers[dc.vertex_buffers[j] as int].element_count,
{
    a_draw_call_draws_what_its_indices_store(dc, mesh, k);
    crate::mesh::drawn_vertices_exist(dc, mesh, k, j);
}

/// What the places of a geometry hold.
proof fn lemma_places(mesh: MeshView, dc: DrawCallView, needs_uv1: bool, needs_blend: bool, k: int)
    requires
        crate::geometry::geometry_of(mesh, dc, needs_uv1, needs_blend) is Ok,
        crate::mesh::drawn_vertices(dc, mesh) is Ok,
        0 <= k < crate::mesh::drawn_vertices(dc, mesh)->Ok_0.len(),
    ensures
        ({
            let g = crate::geometry::geometry_of(mesh, dc, needs_uv1, needs_blend)->Ok_0;
            let drawn = crate::mesh::drawn_vertices(dc, mesh)->Ok_0;
            let order = crate::geometry::first_seen(drawn);
            &&& g.indices.len() == drawn.len()
            &&& g.indices[k] < order.len()
            &&& order[g.indices[k] as int] == drawn[k]
        }),
{
    let drawn = crate::mesh::drawn_vertices(dc, mesh)->Ok_0;
    crate::geometry::places_hold_their_vertices(drawn);
    assert(crate::geometry::local_indices(drawn)[k] < crate::geometry::first_seen(drawn).len());
}

/// Every vertex that is drawn stands in every buffer that holds one of its attributes.
proof fn lemma_in_stream(
    mesh: MeshView,
    dc: DrawCallView,
    name: Seq<char>,
    index: i32,
    k: int,
)
    requires
        crate::mesh::drawn_vertices(dc, mesh) is Ok,
        0 <= k < crate::mesh::drawn_vertices(dc, mesh)->Ok_0.len(),
        crate::geometry::stream_of(mesh, dc, name, index) is Some,
    ensures
        ({
            let s = crate::geometry::stream_of(mesh, dc, name, index)->Some_0;
            &&& 0 <= s.0 < mesh.vertex_buffers.len()
            &&& crate::mesh::drawn_vertices(dc, mesh)->Ok_0[k]
                < mesh.vertex_buffers[s.0].element_count
        }),
{
    an_attribute_has_its_stream(mesh, dc, name, index);
    let s = crate::geometry::stream_of(mesh, dc, name, index)->Some_0;
    let (j, f) = choose|j: int, f: int|
        #[trigger] is_stream(mesh, dc, name, index, j, f) && s.0 == dc.vertex_buffers[j] && s.1
            == mesh.vertex_buffers[s.0].fields[f];
    crate::mesh::drawn_vertices_exist(dc, mesh, k, j);
}

/// A vertex that is drawn has the position that its buffer stores: three singles, one after the
/// other.
pub proof fn a_vertex_has_the_position_that_is_stored(
    mesh: MeshView,
    dc: DrawCallView,
    needs_uv1: bool,
    needs_blend: bool,
    k: int,
)
    requires
        crate::geometry::geometry_of(mesh, dc, needs_uv1, needs_blend) is Ok,
        0 <= k < crate::mesh::drawn_vertices(dc, mesh)->Ok_0.len(),
    ensures
        ({
            let g = crate::geometry::geometry_of(mesh, dc, needs_uv1, needs_blend)->Ok_0;
            let d = crate::mesh::drawn_vertices(dc, mesh)->Ok_0[k] as int;
            let s = crate::geometry::stream_of(mesh, dc, "POSITION"@, 0)->Some_0;
            let b = mesh.vertex_buffers[s.0];
            let at = stored_at(b, s.1, d);
            let p = g.positions[g.indices[k] as int];
            &&& crate::geometry::stream_of(mesh, dc, "POSITION"@, 0) is Some
            &&& s.1.format == DxgiFormat::R32G32B32Float
            &&& at + 12 <= b.data.len()
            &&& g.indices[k] < g.positions.len()
            &&& p.len() == 3
            &&& p[0] == four_at(b.data, at)
            &&& p[1] == four_at(b.data, at + 4)
            &&& p[2] == four_at(b.data, at + 8)
        }),
{
    lemma_places(mesh, dc, needs_uv1, needs_blend, k);
    lemma_in_stream(mesh, dc, "POSITION"@, 0, k);
    let s = crate::geometry::stream_of(mesh, dc, "POSITION"@, 0)->Some_0;
    let b = mesh.vertex_buffers[s.0];
    let d = crate::mesh::drawn_vertices(dc, mesh)->Ok_0[k] as int;
    let step = crate::attributes::position_step(b, s.1.offset);
    crate::error::lemma_gathered(step, b.element_count as nat);
    let all = crate::attributes::positions_of(b, s.1)->Ok_0;
    assert(step(d) == Ok::<Seq<u32>, crate::error::Fault>(all[d]));
    let at = stored_at(b, s.1, d);
    assert(at >= 0) by (nonlinear_arith)
        requires
            at == d * b.element_size + s.1.offset,
            d >= 0,
    ;
    let bytes = b.data.subrange(at, at + 12);
    assert(forall|i: int| 0 <= i < 12 ==> bytes[i] == b.data[at + i]);
}

/// What the texture coordinates of a geometry hold: for a vertex that is drawn the first two
/// components that its buffer stores, and nought where the draw call has no such coordinates.
pub open spec fn holds_pairs(
    mesh: MeshView,
    dc: DrawCallView,
    index: i32,
    vertex: int,
    pair: (Scalar, Scalar),
) -> bool {
    match crate::geometry::stream_of(mesh, dc, "TEXCOORD"@, index) {
        Some(s) => {
            let b = mesh.vertex_buffers[s.0];
            &&& is_component(b.data, stored_at(b, s.1, vertex), s.1.format, 0, pair.0)
            &&& is_component(b.data, stored_at(b, s.1, vertex), s.1.format, 1, pair.1)
        },
        None => pair == (Scalar::Single(0), Scalar::Single(0)),
    }
}

/// What is picked of texture coordinates.
proof fn lemma_pairs(mesh: MeshView, dc: DrawCallView, index: i32, k: int)
    requires
        crate::mesh::drawn_vertices(dc, mesh) is Ok,
        0 <= k < crate::mesh::drawn_vertices(dc, mesh)->Ok_0.len(),
        crate::geometry::coords_at(mesh, dc, index, true) is Ok,
        crate::geometry::are_pairs(mesh, dc, index),
    ensures
        ({
            let drawn = crate::mesh::drawn_vertices(dc, mesh)->Ok_0;
            let order = crate::geometry::first_seen(drawn);
            let v = crate::geometry::coords_at(mesh, dc, index, true)->Ok_0;
            forall|p: int|
                0 <= p < order.len() && order[p] == drawn[k] ==> holds_pairs(
                    mesh,
                    dc,
                    index,
                    drawn[k] as int,
                    #[trigger] crate::geometry::pairs_in(v, order)[p],
                )
        }),
{
    if crate::geometry::stream_of(mesh, dc, "TEXCOORD"@, index) is Some {
        lemma_in_stream(mesh, dc, "TEXCOORD"@, index, k);
        let s = crate::geometry::stream_of(mesh, dc, "TEXCOORD"@, index)->Some_0;
        let d = crate::mesh::drawn_vertices(dc, mesh)->Ok_0[k] as int;
        let b = mesh.vertex_buffers[s.0];
        assert(crate::attributes::attribute_of(b, s.1, "TEXCOORD"@) is Ok);
        assert(layout_of(s.1.format) is Some);
        an_attribute_is_what_is_stored(b, s.1, "TEXCOORD"@, d, 0);
        an_attribute_is_what_is_stored(b, s.1, "TEXCOORD"@, d, 1);
    }
}

/// A vertex that is drawn has the texture coordinates that its buffer stores for it, and, where they
/// are needed, the coordinates in the lightmap.
pub proof fn a_vertex_has_the_coordinates_that_are_stored(
    mesh: MeshView,
    dc: DrawCallView,
    needs_uv1: bool,
    needs_blend: bool,
    k: int,
)
    requires
        crate::geometry::geometry_of(mesh, dc, needs_uv1, needs_blend) is Ok,
        crate::geometry::is_paired(mesh, dc, needs_uv1, needs_blend),
        0 <= k < crate::mesh::drawn_vertices(dc, mesh)->Ok_0.len(),
    ensures
        ({
            let g = crate::geometry::geometry_of(mesh, dc, needs_uv1, needs_blend)->Ok_0;
            let d = crate::mesh::drawn_vertices(dc, mesh)->Ok_0[k] as int;
            let p = g.indices[k] as int;
            &&& p < g.uv0.len()
            &&& holds_pairs(mesh, dc, 0, d, g.uv0[p])
            &&& g.uv1 is Some == needs_uv1
            &&& needs_uv1 ==> p < g.uv1->Some_0.len() && holds_pairs(
                mesh,
                dc,
                3,
                d,
                g.uv1->Some_0[p],
            )
        }),
{
    lemma_places(mesh, dc, needs_uv1, needs_blend, k);
    lemma_pairs(mesh, dc, 0, k);
    if needs_uv1 {
        lemma_pairs(mesh, dc, 3, k);
    }
    let drawn = crate::mesh::drawn_vertices(dc, mesh)->Ok_0;
    let order = crate::geometry::first_seen(drawn);
    let g = crate::geometry::geometry_of(mesh, dc, needs_uv1, needs_blend)->Ok_0;
    let p = g.indices[k] as int;
    assert(g.uv0 == crate::geometry::pairs_in(
        crate::geometry::coords_at(mesh, dc, 0, true)->Ok_0,
        order,
    ));
}

/// A vertex that is drawn has, where it is needed, the weight that its buffer stores for it: the
/// first component, and nought where the draw call has no weights.
pub proof fn a_vertex_has_the_weight_that_is_stored(
    mesh: MeshView,
    dc: DrawCallView,
    needs_uv1: bool,
    needs_blend: bool,
    k: int,
)
    requires
        crate::geometry::geometry_of(mesh, dc, needs_uv1, needs_blend) is Ok,
        0 <= k < crate::mesh::drawn_vertices(dc, mesh)->Ok_0.len(),
    ensures
        ({
            let g = crate::geometry::geometry_of(mesh, dc, needs_uv1, needs_blend)->Ok_0;
            let d = crate::mesh::drawn_vertices(dc, mesh)->Ok_0[k] as int;
            let p = g.indices[k] as int;
            &&& g.blend is Some == needs_blend
            &&& needs_blend ==> p < g.blend->Some_0.len() && match crate::geometry::stream_of(
                mesh,
                dc,
                "TEXCOORD"@,
                4,
            ) {
                Some(s) => is_component(
                    mesh.vertex_buffers[s.0].data,
                    stored_at(mesh.vertex_buffers[s.0], s.1, d),
                    s.1.format,
                    0,
                    g.blend->Some_0[p],
                ),
                None => g.blend->Some_0[p] == Scalar::Single(0),
            }
        }),
{
    lemma_places(mesh, dc, needs_uv1, needs_blend, k);
    if needs_blend && crate::geometry::stream_of(mesh, dc, "TEXCOORD"@, 4) is Some {
        lemma_in_stream(mesh, dc, "TEXCOORD"@, 4, k);
        let s = crate::geometry::stream_of(mesh, dc, "TEXCOORD"@, 4)->Some_0;
        let d = crate::mesh::drawn_vertices(dc, mesh)->Ok_0[k] as int;
        let b = mesh.vertex_buffers[s.0];
        assert(crate::attributes::attribute_of(b, s.1, "TEXCOORD"@) is Ok);
        assert(layout_of(s.1.format) is Some);
        an_attribute_is_what_is_stored(b, s.1, "TEXCOORD"@, d, 0);
    }
}

/// The byte that a folded coordinate was unfolded from: `outer` is the sign of the half that it
/// stands in.
pub open spec fn folded_back(v: u8, negative: bool, outer: bool) -> int {
    let from_middle = if negative {
        63 - v
    } else {
        64 + v
    };
    if outer {
        127 - from_middle
    } else {
        128 + from_middle
    }
}

/// Whether a folded vector is what two bytes store: folding it back gives the bytes.
pub open spec fn is_folded(f: Folded, x: u8, y: u8) -> bool {
    &&& f.x <= 63 && f.y <= 63
    &&& f.z_negative == (x < 128)
    &&& folded_back(f.x, f.x_negative, f.z_negative) == x
    &&& folded_back(f.y, f.y_negative, y < 128) == y
}

/// Whether a normal is what is stored at a place in a format.
pub open spec fn is_normal(data: Seq<u8>, at: int, format: DxgiFormat, n: NormalView) -> bool {
    match format {
        DxgiFormat::R32G32B32Float => n matches NormalView::Plain(v) && {
            &&& v.len() == 3
            &&& v[0] == four_at(data, at)
            &&& v[1] == four_at(data, at + 4)
            &&& v[2] == four_at(data, at + 8)
        },
        DxgiFormat::R8G8B8A8Unorm => n matches NormalView::Bytes { normal, tangent, positive } && {
            &&& is_folded(normal, data[at], data[at + 1])
            &&& is_folded(tangent, data[at + 2], data[at + 3])
            &&& positive == (data[at + 3] >= 128)
        },
        DxgiFormat::R32Uint => n matches NormalView::Frame { x, y, turn, positive } && {
            &&& x < 1024 && y < 1024 && turn < 2048
            &&& four_at(data, at) == 4194304 * y + 4096 * x + 2 * turn + if positive {
                1int
            } else {
                0
            }
        },
        _ => false,
    }
}

/// A normal that is read of a vertex's bytes is stored in them.
proof fn lemma_normal(format: DxgiFormat, data: Seq<u8>, at: int, len: int)
    requires
        crate::attributes::normal_len(format) == Some(len),
        0 <= at,
        at + len <= data.len(),
    ensures
        is_normal(
            data,
            at,
            format,
            crate::attributes::normal_in(format, data.subrange(at, at + len)),
        ),
{
    let b = data.subrange(at, at + len);
    assert(forall|i: int| 0 <= i < len ==> b[i] == data[at + i]);
    if format == DxgiFormat::R32Uint {
        let w = four_at(data, at);
        assert(crate::bytes::le32(b, 0) == w);
        assert(0 <= w < 0x1_0000_0000);
        assert(w == 4194304 * (w / 4194304) + 4096 * (w / 4096 % 1024) + 2 * (w / 2 % 2048) + w % 2
            && w / 4194304 % 1024 == w / 4194304) by (nonlinear_arith)
            requires
                0 <= w < 0x1_0000_0000,
        ;
    }
}

/// A vertex that is drawn has the normal that its buffer stores for it, and one that points up where
/// the draw call has no normals.
pub proof fn a_vertex_has_the_normal_that_is_stored(
    mesh: MeshView,
    dc: DrawCallView,
    needs_uv1: bool,
    needs_blend: bool,
    k: int,
)
    requires
        crate::geometry::geometry_of(mesh, dc, needs_uv1, needs_blend) is Ok,
        0 <= k < crate::mesh::drawn_vertices(dc, mesh)->Ok_0.len(),
    ensures
        ({
            let g = crate::geometry::geometry_of(mesh, dc, needs_uv1, needs_blend)->Ok_0;
            let d = crate::mesh::drawn_vertices(dc, mesh)->Ok_0[k] as int;
            let p = g.indices[k] as int;
            &&& p < g.normals.len()
            &&& match crate::geometry::stream_of(mesh, dc, "NORMAL"@, 0) {
                Some(s) => is_normal(
                    mesh.vertex_buffers[s.0].data,
                    stored_at(mesh.vertex_buffers[s.0], s.1, d),
                    s.1.format,
                    g.normals[p],
                ),
                None => g.normals[p] matches NormalView::Plain(v) && v == seq![
                    0u32,
                    0u32,
                    0x3F80_0000u32,
                ],
            }
        }),
{
    lemma_places(mesh, dc, needs_uv1, needs_blend, k);
    let g = crate::geometry::geometry_of(mesh, dc, needs_uv1, needs_blend)->Ok_0;
    let p = g.indices[k] as int;
    match crate::geometry::stream_of(mesh, dc, "NORMAL"@, 0) {
        Some(s) => {
            lemma_in_stream(mesh, dc, "NORMAL"@, 0, k);
            let d = crate::mesh::drawn_vertices(dc, mesh)->Ok_0[k] as int;
            let b = mesh.vertex_buffers[s.0];
            let len = crate::attributes::normal_len(s.1.format)->Some_0;
            let step = crate::attributes::normal_step(b, s.1.offset, s.1.format, len);
            crate::error::lemma_gathered(step, b.element_count as nat);
            let all = crate::attributes::normals_of(b, s.1)->Ok_0;
            assert(step(d) == Ok::<NormalView, crate::error::Fault>(all[d]));
            let at = stored_at(b, s.1, d);
            assert(at >= 0) by (nonlinear_arith)
                requires
                    at == d * b.element_size + s.1.offset,
                    d >= 0,
            ;
            lemma_normal(s.1.format, b.data, at, len);
        },
        None => {
            assert(g.normals[p] == crate::geometry::up());
            assert(g.normals[p]->Plain_0 =~= seq![0u32, 0u32, 0x3F80_0000u32]);
        },
    }
}

/// A vertex is its stored index moved by the base vertex; one that is no number is refused for the base, and
/// one beyond the vertices for these.
pub proof fn a_vertex_is_its_index_moved_by_the_base(raw: u32, base: i64, bound: Option<usize>)
    ensures
        ({
            let r = crate::mesh::resolved_index(raw, base, bound);
            let v = raw + base;
            let limit = match bound {
                Some(b) => b,
                None => 0,
            };
            &&& v < 0 || v > u32::MAX ==> (r matches Err(
                crate::error::Fault::IndexOutOfRange { path, index, len },
            ) && path == "m_nBaseVertex"@ && len == limit && (i64::MIN <= v <= i64::MAX ==> index
                == v))
            &&& 0 <= v <= u32::MAX && bound is Some && v >= limit ==> (r matches Err(
                crate::error::Fault::IndexOutOfRange { path, index, len },
            ) && path == "m_vertexBuffers"@ && len == limit && index == v)
            &&& 0 <= v <= u32::MAX && (bound is None || v < limit) ==> (r matches Ok(w) && w == v)
        }),
{
}

} // verus!
