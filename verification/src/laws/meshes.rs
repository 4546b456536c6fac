//! What decoded meshes and models hold, in terms of the keys of the trees and of the bytes of the
//! blocks that they were decoded from.

use crate::buffer::{BufferView, FieldView};
use crate::format::DxgiFormat;
use crate::kv::{Resource, Value};
use crate::mesh::{DrawCallView, FlagsView};
use crate::model::EmbeddedMeshView;
use vstd::prelude::*;

verus! {

/// Whether a number, which is not negative, is the one under a key.
pub open spec fn is_count_at(v: Value, key: Seq<char>, n: int) -> bool {
    crate::kv::signed_at(v, key) matches Some(i) && i == n
}

/// Whether three numbers are the first three items of the list under a key.
pub open spec fn are_three_at(v: Value, key: Seq<char>, t: Seq<u32>) -> bool {
    crate::kv::items_at(v, key) matches Some(a) && {
        &&& a.len() >= 3
        &&& t.len() == 3
        &&& crate::kv::single_of(a[0]) == Some(t[0])
        &&& crate::kv::single_of(a[1]) == Some(t[1])
        &&& crate::kv::single_of(a[2]) == Some(t[2])
    }
}

/// Whether a draw call is what a tree says, key by key.
pub open spec fn is_draw_call(v: Value, dc: DrawCallView) -> bool {
    &&& crate::kv::signed_at(v, "m_nBaseVertex"@) == Some(dc.base_vertex)
    &&& crate::kv::signed_at(v, "m_nStartIndex"@) == Some(dc.start_index)
    &&& crate::kv::signed_at(v, "m_nIndexCount"@) == Some(dc.index_count)
    &&& crate::kv::signed_at(v, "m_nVertexCount"@) == Some(dc.vertex_count)
    &&& crate::kv::child(v, "m_indexBuffer"@) matches Some(ib) && is_count_at(
        ib,
        "m_hBuffer"@,
        dc.index_buffer as int,
    )
    &&& match crate::kv::child(v, "m_vertexBuffers"@) {
        Some(list) => crate::kv::items_of(list) matches Some(items) && {
            &&& items.len() == dc.vertex_buffers.len()
            &&& forall|i: int|
                0 <= i < items.len() ==> is_count_at(
                    items[i],
                    "m_hBuffer"@,
                    #[trigger] dc.vertex_buffers[i] as int,
                )
        },
        None => dc.vertex_buffers.len() == 0,
    }
    &&& match crate::kv::string_at(v, "m_material"@) {
        Some(s) => dc.material_path == Some(s@),
        None => match crate::kv::string_at(v, "m_pMaterial"@) {
            Some(s) => dc.material_path == Some(s@),
            None => dc.material_path is None,
        },
    }
    &&& dc.is_triangle_list == match crate::kv::child(v, "m_nPrimitiveType"@) {
        Some(Value::String(s)) => crate::text::same_ignoring_case(s@, "RENDER_PRIM_TRIANGLES"@),
        Some(Value::Number(n)) => n.signed == Some(5i64),
        _ => false,
    }
    &&& match dc.tint_color {
        Some(t) => are_three_at(v, "m_vTintColor"@, t),
        None => forall|t: Seq<u32>| !#[trigger] are_three_at(v, "m_vTintColor"@, t),
    }
    &&& dc.alpha == crate::kv::single_at(v, "m_flAlpha"@)
    &&& match crate::kv::child(v, "m_nFlags"@) {
        Some(Value::String(s)) => dc.flags == FlagsView::Named(s@),
        Some(Value::Number(n)) => match n.signed {
            Some(i) => dc.flags == FlagsView::Int(i),
            None => dc.flags == FlagsView::Unset,
        },
        _ => dc.flags == FlagsView::Unset,
    }
    &&& dc.has_baked_lighting_from_lightmap == (crate::kv::truth_at(
        v,
        "m_bHasBakedLightingFromLightMap"@,
    ) == Some(true))
}

/// A draw call is what the keys of its tree say.
pub proof fn a_draw_call_is_what_its_keys_say(v: Value, path: Seq<char>)
    ensures
        crate::mesh::draw_call_of(v, path) matches Ok(dc) ==> is_draw_call(v, dc),
{
    if crate::mesh::draw_call_of(v, path) is Ok {
        let dc = crate::mesh::draw_call_of(v, path)->Ok_0;
        match crate::kv::child(v, "m_vertexBuffers"@) {
            Some(list) => {
                let items = crate::kv::items_of(list)->Some_0;
                let step = crate::mesh::handle_step(items, path);
                crate::error::lemma_gathered(step, items.len());
                assert forall|i: int| 0 <= i < items.len() implies is_count_at(
                    items[i],
                    "m_hBuffer"@,
                    #[trigger] dc.vertex_buffers[i] as int,
                ) by {
                    assert(step(i) == Ok::<usize, crate::error::Fault>(dc.vertex_buffers[i]));
                }
            },
            None => {},
        }
        match dc.tint_color {
            Some(t) => {
                assert(are_three_at(v, "m_vTintColor"@, t));
            },
            None => {},
        }
    }
}

/// A draw call that has its numbers and its handles is not refused.
pub proof fn a_draw_call_with_its_keys_is_decoded(v: Value, path: Seq<char>, dc: DrawCallView)
    requires
        is_draw_call(v, dc),
    ensures
        crate::mesh::draw_call_of(v, path) is Ok,
{
    match crate::kv::child(v, "m_vertexBuffers"@) {
        Some(list) => {
            let items = crate::kv::items_of(list)->Some_0;
            let step = crate::mesh::handle_step(items, path);
            assert forall|i: int| 0 <= i < items.len() implies (#[trigger] step(i)) is Ok by {
                assert(is_count_at(items[i], "m_hBuffer"@, dc.vertex_buffers[i] as int));
            }
            crate::laws::vertices::lemma_all_gathered(step, items.len());
        },
        None => {},
    }
}

/// The draw calls of a tree: for each scene object, in order, those of its list, in order.
pub proof fn draw_calls_come_in_order(root: Value, path: Seq<char>, i: int, k: int)
    requires
        crate::mesh::scene_objects_of(root, path) is Ok,
        0 <= i < crate::model::list_at(root, "m_sceneObjects"@).len(),
    ensures
        ({
            let objects = crate::mesh::scene_objects_of(root, path)->Ok_0;
            let items = crate::model::list_at(root, "m_sceneObjects"@);
            let calls = crate::model::list_at(items[i], "m_drawCalls"@);
            &&& objects.len() == items.len()
            &&& objects[i].len() == calls.len()
            &&& 0 <= k < calls.len() ==> is_draw_call(calls[k], objects[i][k])
        }),
{
    let objects = crate::mesh::scene_objects_of(root, path)->Ok_0;
    let items = crate::model::list_at(root, "m_sceneObjects"@);
    let step = crate::mesh::scene_step(items, path);
    crate::error::lemma_gathered(step, items.len());
    assert(step(i) == Ok::<Seq<DrawCallView>, crate::error::Fault>(objects[i]));
    let at = crate::text::item_path(path, "m_sceneObjects"@, i);
    let calls = crate::model::list_at(items[i], "m_drawCalls"@);
    assert(crate::mesh::scene_object_of(items[i], at) is Ok);
    if crate::kv::child(items[i], "m_drawCalls"@) is Some {
        let inner = crate::mesh::draw_call_step(calls, at);
        crate::error::lemma_gathered(inner, calls.len());
        if 0 <= k < calls.len() {
            assert(inner(k) == Ok::<DrawCallView, crate::error::Fault>(objects[i][k]));
            a_draw_call_is_what_its_keys_say(
                calls[k],
                crate::text::item_path(at, "m_drawCalls"@, k),
            );
        }
    }
}

/// The formats that are told apart have the numbers that Direct3D gives them, and every other number
/// is kept.
pub proof fn formats_have_their_numbers(n: u32)
    ensures
        (crate::format::format_of(n) == DxgiFormat::R32G32B32A32Float) == (n == 2),
        (crate::format::format_of(n) == DxgiFormat::R32G32B32Float) == (n == 6),
        (crate::format::format_of(n) == DxgiFormat::R16G16B16A16Float) == (n == 10),
        (crate::format::format_of(n) == DxgiFormat::R32G32Float) == (n == 16),
        (crate::format::format_of(n) == DxgiFormat::R8G8B8A8Unorm) == (n == 28),
        (crate::format::format_of(n) == DxgiFormat::R8G8B8A8Uint) == (n == 30),
        (crate::format::format_of(n) == DxgiFormat::R16G16Float) == (n == 34),
        (crate::format::format_of(n) == DxgiFormat::R16G16Unorm) == (n == 35),
        (crate::format::format_of(n) == DxgiFormat::R16G16Snorm) == (n == 37),
        (crate::format::format_of(n) == DxgiFormat::R32Float) == (n == 41),
        (crate::format::format_of(n) == DxgiFormat::R32Uint) == (n == 42),
        crate::format::format_of(n) matches DxgiFormat::Other(m) ==> m == n,
{
}

/// Whether a field is what a tree says, key by key.
pub open spec fn is_layout_field(v: Value, f: FieldView) -> bool {
    &&& match crate::kv::child(v, "m_pSemanticName"@) {
        Some(Value::String(s)) => f.semantic_name == crate::text::ascii_uppered(s@),
        Some(Value::Blob(b)) => f.semantic_name == crate::text::ascii_uppered(
            crate::reader::slot_text(b@),
        ),
        _ => false,
    }
    &&& match crate::kv::signed_at(v, "m_nSemanticIndex"@) {
        Some(i) => f.semantic_index == i as i32,
        None => f.semantic_index == 0,
    }
    &&& match crate::kv::unsigned_at(v, "m_Format"@) {
        Some(u) => f.format == crate::format::format_of(u as u32),
        None => f.format == crate::format::format_of(0),
    }
    &&& match crate::kv::unsigned_at(v, "m_nOffset"@) {
        Some(u) => f.offset == u as u32,
        None => f.offset == 0,
    }
}

/// Whether the header of a buffer is what a tree says: its counts and its fields, in order.
pub open spec fn is_buffer_header(v: Value, b: BufferView) -> bool {
    let items = crate::model::list_at(v, "m_inputLayoutFields"@);
    &&& crate::kv::unsigned_at(v, "m_nElementCount"@) matches Some(n) && b.element_count == n as u32
    &&& crate::kv::unsigned_at(v, "m_nElementSizeInBytes"@) matches Some(n) && b.element_size
        == n as u32
    &&& b.fields.len() == items.len()
    &&& forall|i: int|
        0 <= i < items.len() ==> is_layout_field(items[i], #[trigger] b.fields[i])
}

/// A buffer of a tree has the counts and the fields that its keys say; where its bytes are carried
/// whole, they are its data.
pub proof fn a_buffer_is_what_its_keys_say(
    resource: Resource,
    entry: Value,
    is_vertex: bool,
    path: Seq<char>,
)
    requires
        crate::buffer::kv3_buffer(resource, entry, is_vertex, path) is Ok,
    ensures
        ({
            let b = crate::buffer::kv3_buffer(resource, entry, is_vertex, path)->Ok_0;
            let size = b.element_count * b.element_size;
            &&& is_buffer_header(entry, b)
            &&& match crate::kv::child(entry, "m_pData"@) {
                Some(Value::Blob(raw)) => raw@.len() == size ==> b.data == raw@,
                Some(_) => false,
                None => match crate::kv::signed_at(entry, "m_nBlockIndex"@) {
                    Some(i) => match crate::kv::filled_block(resource, i as int) {
                        Some(block) => block.bytes@.len() == size ==> b.data == block.bytes@,
                        None => false,
                    },
                    None => false,
                },
            }
        }),
{
    let b = crate::buffer::kv3_buffer(resource, entry, is_vertex, path)->Ok_0;
    if crate::kv::child(entry, "m_inputLayoutFields"@) is Some {
        let items = crate::model::list_at(entry, "m_inputLayoutFields"@);
        let step = crate::buffer::layout_step(items, path);
        crate::error::lemma_gathered(step, items.len());
        assert forall|i: int| 0 <= i < items.len() implies is_layout_field(
            items[i],
            #[trigger] b.fields[i],
        ) by {
            assert(step(i) == Ok::<FieldView, crate::error::Fault>(b.fields[i]));
        }
    }
}

/// The buffers of a tree come in the order of their lists: vertex buffers from the one, index buffers
/// from the other.
pub proof fn buffers_come_in_order(resource: Resource, root: Value, path: Seq<char>, i: int)
    requires
        crate::buffer::kv3_buffers(resource, root, path) is Ok,
    ensures
        ({
            let (vertex, index) = crate::buffer::kv3_buffers(resource, root, path)->Ok_0;
            let v = crate::model::list_at(root, "m_vertexBuffers"@);
            let x = crate::model::list_at(root, "m_indexBuffers"@);
            &&& vertex.len() == v.len()
            &&& index.len() == x.len()
            &&& 0 <= i < v.len() ==> is_buffer_header(v[i], vertex[i])
            &&& 0 <= i < x.len() ==> is_buffer_header(x[i], index[i])
        }),
{
    let (vertex, index) = crate::buffer::kv3_buffers(resource, root, path)->Ok_0;
    let v = crate::model::list_at(root, "m_vertexBuffers"@);
    let x = crate::model::list_at(root, "m_indexBuffers"@);
    if crate::kv::child(root, "m_vertexBuffers"@) is Some {
        let step = crate::buffer::kv3_step(resource, v, true, path, "m_vertexBuffers"@);
        crate::error::lemma_gathered(step, v.len());
        if 0 <= i < v.len() {
            assert(step(i) == Ok::<BufferView, crate::error::Fault>(vertex[i]));
            a_buffer_is_what_its_keys_say(
                resource,
                v[i],
                true,
                crate::text::item_path(path, "m_vertexBuffers"@, i),
            );
        }
    }
    if crate::kv::child(root, "m_indexBuffers"@) is Some {
        let step = crate::buffer::kv3_step(resource, x, false, path, "m_indexBuffers"@);
        crate::error::lemma_gathered(step, x.len());
        if 0 <= i < x.len() {
            assert(step(i) == Ok::<BufferView, crate::error::Fault>(index[i]));
            a_buffer_is_what_its_keys_say(
                resource,
                x[i],
                false,
                crate::text::item_path(path, "m_indexBuffers"@, i),
            );
        }
    }
}

/// Words are read one after the other.
proof fn lemma_words(data: Seq<u8>, pos: int, n: nat)
    requires
        crate::buffer::words_at(data, pos, n) is Ok,
        pos >= 0,
    ensures
        crate::buffer::words_at(data, pos, n)->Ok_0.len() == n,
        n > 0 ==> pos + 4 * n <= data.len(),
        forall|i: int|
            0 <= i < n ==> #[trigger] crate::buffer::words_at(data, pos, n)->Ok_0[i]
                == crate::laws::vertices::four_at(data, pos + 4 * i),
    decreases n,
{
    if n > 0 {
        lemma_words(data, pos, (n - 1) as nat);
    }
}

/// A field of a binary buffer is stored in 56 bytes: its name in the first 32, up to a zero byte, and
/// then as words its index, its format and its offset.
pub proof fn a_binary_field_is_what_its_bytes_say(data: Seq<u8>, pos: int, path: Seq<char>)
    requires
        pos >= 0,
        crate::buffer::field_at(data, pos, path) is Ok,
    ensures
        ({
            let f = crate::buffer::field_at(data, pos, path)->Ok_0;
            &&& pos + 56 <= data.len()
            &&& f.semantic_name == crate::text::ascii_uppered(
                crate::reader::slot_text(data.subrange(pos, pos + 32)),
            )
            &&& f.semantic_index == (crate::laws::vertices::four_at(
                data,
                pos + 32,
            ) as u32) as i32
            &&& f.format == crate::format::format_of(
                crate::laws::vertices::four_at(data, pos + 36) as u32,
            )
            &&& f.offset == crate::laws::vertices::four_at(data, pos + 40)
        }),
{
    lemma_words(data, pos + 32, 6);
    let w = crate::buffer::words_at(data, pos + 32, 6)->Ok_0;
    crate::laws::trees::signs_are_read_off_the_top(w[0], 0);
    assert(w[0] == crate::laws::vertices::four_at(data, pos + 32 + 4 * 0));
    assert(w[1] == crate::laws::vertices::four_at(data, pos + 32 + 4 * 1));
    assert(w[2] == crate::laws::vertices::four_at(data, pos + 32 + 4 * 2));
}

/// The header of a binary buffer is six words: its count, its size with two bits of compression above
/// it, where its fields stand, how many there are, where its bytes stand, and how many there are.
/// Places count from the word that gives them. Bytes of the full size are the data as they stand.
pub proof fn a_binary_buffer_is_what_its_bytes_say(
    data: Seq<u8>,
    pos: int,
    is_vertex: bool,
    path: Seq<char>,
    i: int,
)
    requires
        pos >= 0,
        data.len() <= usize::MAX,
        crate::buffer::entry_at(data, pos, is_vertex, path) is Ok,
    ensures
        ({
            let b = crate::buffer::entry_at(data, pos, is_vertex, path)->Ok_0;
            let fields_at = pos + 8 + crate::laws::vertices::four_at(data, pos + 8);
            let stored_at = pos + 16 + crate::laws::vertices::four_at(data, pos + 16);
            let len = crate::laws::vertices::four_at(data, pos + 20);
            &&& pos + 24 <= data.len()
            &&& b.element_count == crate::laws::vertices::four_at(data, pos)
            &&& b.element_size == crate::laws::vertices::four_at(data, pos + 4) % 67108864
            &&& b.fields.len() == crate::laws::vertices::four_at(data, pos + 12)
            &&& 0 <= i < b.fields.len() && fields_at <= usize::MAX ==> {
                let at = fields_at + 56 * i;
                &&& at + 56 <= data.len()
                &&& b.fields[i].semantic_name == crate::text::ascii_uppered(
                    crate::reader::slot_text(data.subrange(at, at + 32)),
                )
                &&& b.fields[i].semantic_index == (crate::laws::vertices::four_at(
                    data,
                    at + 32,
                ) as u32) as i32
                &&& b.fields[i].format == crate::format::format_of(
                    crate::laws::vertices::four_at(data, at + 36) as u32,
                )
                &&& b.fields[i].offset == crate::laws::vertices::four_at(data, at + 40)
            }
            &&& len == b.element_count * b.element_size && stored_at <= usize::MAX ==> b.data
                == data.subrange(stored_at, stored_at + len)
        }),
{
    lemma_words(data, pos, 6);
    let b = crate::buffer::entry_at(data, pos, is_vertex, path)->Ok_0;
    let w = crate::buffer::words_at(data, pos, 6)->Ok_0;
    assert(w[0] == crate::laws::vertices::four_at(data, pos + 4 * 0));
    assert(w[1] == crate::laws::vertices::four_at(data, pos + 4 * 1));
    assert(w[2] == crate::laws::vertices::four_at(data, pos + 4 * 2));
    assert(w[3] == crate::laws::vertices::four_at(data, pos + 4 * 3));
    assert(w[4] == crate::laws::vertices::four_at(data, pos + 4 * 4));
    assert(w[5] == crate::laws::vertices::four_at(data, pos + 4 * 5));
    let fields_at = crate::buffer::landing(pos + 8, w[2] as int);
    let step = crate::buffer::field_step(data, fields_at, path);
    crate::error::lemma_gathered(step, w[3] as nat);
    if 0 <= i < b.fields.len() {
        assert(step(i) == Ok::<FieldView, crate::error::Fault>(b.fields[i]));
        a_binary_field_is_what_its_bytes_say(
            data,
            fields_at + 56 * i,
            crate::text::item_path(path, "field"@, i),
        );
    }
}

/// A binary block begins with four words: where the vertex buffers stand and how many there are, and
/// the same of the index buffers, whose place counts from its own word. Each buffer takes 24 bytes.
pub proof fn a_binary_block_lists_its_buffers(data: Seq<u8>, i: int)
    requires
        crate::buffer::vbib_block(data) is Ok,
    ensures
        ({
            let (vertex, index) = crate::buffer::vbib_block(data)->Ok_0;
            let v = crate::laws::vertices::four_at(data, 0);
            let x = 8 + crate::laws::vertices::four_at(data, 8);
            &&& vertex.len() == crate::laws::vertices::four_at(data, 4)
            &&& index.len() == crate::laws::vertices::four_at(data, 12)
            &&& 0 <= i < vertex.len() ==> crate::buffer::entry_at(
                data,
                v + 24 * i,
                true,
                crate::text::item_path("VBIB"@, "vertex"@, i),
            ) == Ok::<BufferView, crate::error::Fault>(vertex[i])
            &&& 0 <= i < index.len() && x <= usize::MAX ==> crate::buffer::entry_at(
                data,
                x + 24 * i,
                false,
                crate::text::item_path("VBIB"@, "index"@, i),
            ) == Ok::<BufferView, crate::error::Fault>(index[i])
        }),
{
    lemma_words(data, 0, 4);
    let (vertex, index) = crate::buffer::vbib_block(data)->Ok_0;
    let w = crate::buffer::words_at(data, 0, 4)->Ok_0;
    assert(w[0] == crate::laws::vertices::four_at(data, 0int + 4 * 0));
    assert(w[1] == crate::laws::vertices::four_at(data, 0int + 4 * 1));
    assert(w[2] == crate::laws::vertices::four_at(data, 0int + 4 * 2));
    assert(w[3] == crate::laws::vertices::four_at(data, 0int + 4 * 3));
    let a = crate::buffer::entry_step(data, w[0] as int, true, "vertex"@);
    let b = crate::buffer::entry_step(
        data,
        crate::buffer::landing(8, w[2] as int),
        false,
        "index"@,
    );
    crate::error::lemma_gathered(a, w[1] as nat);
    crate::error::lemma_gathered(b, w[3] as nat);
    if 0 <= i < vertex.len() {
        assert(a(i) == Ok::<BufferView, crate::error::Fault>(vertex[i]));
    }
    if 0 <= i < index.len() {
        assert(b(i) == Ok::<BufferView, crate::error::Fault>(index[i]));
    }
}

/// Whether bit `l` of a mask is set.
pub open spec fn bit(mask: i64, l: u64) -> bool {
    ((mask as u64) >> l) & 1u64 == 1u64
}

/// A level is held by a mask where its bit is set.
pub proof fn a_level_is_a_bit(mask: i64, l: u64)
    requires
        l < 64,
    ensures
        crate::model::has_level(mask, l as int) == bit(mask, l),
{
    assert((mask & (1i64 << l) != 0) == (((mask as u64) >> l) & 1u64 == 1u64)) by (bit_vector)
        requires
            l < 64,
    ;
}

/// A model as a whole has the levels that any of its meshes has.
pub proof fn levels_are_those_of_any_mesh(masks: Seq<i64>, l: u64)
    requires
        l < 64,
    ensures
        bit(crate::model::union_of(masks), l) == exists|i: int|
            0 <= i < masks.len() && bit(#[trigger] masks[i], l),
    decreases masks.len(),
{
    if masks.len() == 0 {
        assert(((0i64 as u64) >> l) & 1u64 == 0u64) by (bit_vector);
    } else {
        let front = masks.drop_last();
        levels_are_those_of_any_mesh(front, l);
        let a = crate::model::union_of(front);
        let b = masks.last();
        assert((((a | b) as u64) >> l) & 1u64 == 1u64 <==> (((a as u64) >> l) & 1u64 == 1u64) || (((
        b as u64) >> l) & 1u64 == 1u64)) by (bit_vector);
        if bit(a, l) {
            let i = choose|i: int| 0 <= i < front.len() && bit(#[trigger] front[i], l);
            assert(masks[i] == front[i]);
        }
        if bit(b, l) {
            assert(masks[masks.len() - 1] == b);
        }
        if exists|i: int| 0 <= i < masks.len() && bit(#[trigger] masks[i], l) {
            let i = choose|i: int| 0 <= i < masks.len() && bit(#[trigger] masks[i], l);
            if i < front.len() {
                assert(front[i] == masks[i]);
            }
        }
    }
}

/// The levels of a mask are listed from the lowest on, each once, and no others.
pub proof fn levels_are_listed_in_order(mask: i64, n: int, l: int)
    requires
        0 <= n <= 64,
        0 <= l < 64,
    ensures
        crate::model::levels_below(mask, n).contains(l as i64) == (l < n && crate::model::has_level(
            mask,
            l,
        )),
        forall|i: int|
            0 <= i < crate::model::levels_below(mask, n).len() ==> 0
                <= #[trigger] crate::model::levels_below(mask, n)[i] < n,
        forall|i: int, j: int|
            0 <= i < j < crate::model::levels_below(mask, n).len()
                ==> #[trigger] crate::model::levels_below(mask, n)[i]
                < #[trigger] crate::model::levels_below(mask, n)[j],
    decreases n,
{
    let all = crate::model::levels_below(mask, n);
    if n > 0 {
        levels_are_listed_in_order(mask, n - 1, l);
        let before = crate::model::levels_below(mask, n - 1);
        if crate::model::has_level(mask, n - 1) {
            assert(all == before.push((n - 1) as i64));
            if before.contains(l as i64) {
                let i = choose|i: int| 0 <= i < before.len() && before[i] == l as i64;
                assert(all[i] == l as i64);
            }
            if l == n - 1 {
                assert(all[before.len() as int] == l as i64);
            }
            if all.contains(l as i64) {
                let i = choose|i: int| 0 <= i < all.len() && all[i] == l as i64;
                if i < before.len() {
                    assert(before[i] == l as i64);
                }
            }
        }
    }
}

/// What a model says of its levels: the masks and the distances under their keys, and what follows
/// from the masks.
pub proof fn levels_are_what_the_keys_say(root: Value, l: u64)
    requires
        l < 64,
    ensures
        ({
            let lod = crate::model::lod_of(root);
            &&& lod.mesh_lod_masks == crate::model::integers_of(
                crate::model::list_at(root, "m_refLODGroupMasks"@),
            )
            &&& lod.switch_distances == crate::model::singles_of(
                crate::model::list_at(root, "m_lodGroupSwitchDistances"@),
            )
            &&& bit(lod.combined_mask, l) == exists|i: int|
                0 <= i < lod.mesh_lod_masks.len() && bit(#[trigger] lod.mesh_lod_masks[i], l)
            &&& lod.available_levels.contains(l as i64) == bit(lod.combined_mask, l)
            &&& lod.combined_mask != 0 ==> {
                &&& 0 <= lod.lowest_level < 64
                &&& bit(lod.combined_mask, lod.lowest_level as u64)
                &&& l < lod.lowest_level ==> !bit(lod.combined_mask, l)
            }
            &&& lod.combined_mask == 0 ==> lod.lowest_level == 0
        }),
{
    let lod = crate::model::lod_of(root);
    levels_are_those_of_any_mesh(lod.mesh_lod_masks, l);
    levels_are_listed_in_order(lod.combined_mask, 64, l as int);
    a_level_is_a_bit(lod.combined_mask, l);
    if lod.combined_mask != 0 {
        crate::model::lowest_level_is_held(lod.combined_mask);
        let low = crate::model::lowest_of(lod.combined_mask);
        a_level_is_a_bit(lod.combined_mask, low as u64);
        if l < low {
            assert(!crate::model::has_level(lod.combined_mask, l as int));
        }
    }
}

/// A mesh is in a level where its mask says so; a mesh without a mask is in every level, and has the
/// mask of none.
pub proof fn a_mesh_is_in_the_levels_of_its_mask(masks: Seq<i64>, mesh: int, l: u64)
    requires
        0 <= mesh,
        l < 64,
    ensures
        crate::model::in_level(masks, mesh, l as int) == (mesh < masks.len() ==> bit(
            masks[mesh],
            l,
        )),
        crate::model::mask_of(masks, mesh) == (if mesh < masks.len() {
            masks[mesh]
        } else {
            0i64
        }),
{
    if mesh < masks.len() {
        a_level_is_a_bit(masks[mesh], l);
    }
}

/// The meshes that a model refers to: each path that is not empty, with the place where it stands as
/// its number and the mask at that place, in order.
pub proof fn references_keep_their_places(items: Seq<Value>, masks: Seq<i64>, k: int, i: int)
    requires
        items.len() <= usize::MAX,
    ensures
        ({
            let refs = crate::model::refs_of(items, masks);
            &&& refs.len() <= items.len()
            &&& 0 <= k < refs.len() ==> {
                let n = refs[k].mesh_index as int;
                &&& 0 <= n < items.len()
                &&& items[n] matches Value::String(s) && s@ == refs[k].mesh_path && s@.len() > 0
                &&& refs[k].lod_mask == (if n < masks.len() {
                    masks[n]
                } else {
                    0i64
                })
                &&& k > 0 ==> refs[k - 1].mesh_index < refs[k].mesh_index
            }
            &&& 0 <= i < items.len() && (items[i] matches Value::String(s) && s@.len() > 0)
                ==> exists|j: int| 0 <= j < refs.len() && #[trigger] refs[j].mesh_index == i
        }),
    decreases items.len(),
{
    let refs = crate::model::refs_of(items, masks);
    if items.len() > 0 {
        let front = items.drop_last();
        let before = crate::model::refs_of(front, masks);
        references_keep_their_places(front, masks, k, i);
        if before.len() > 0 {
            references_keep_their_places(front, masks, before.len() - 1, i);
        }
        if refs.len() > before.len() && k == refs.len() - 1 {
            assert(refs[k].mesh_index == items.len() - 1);
            if k > 0 {
                assert(refs[k - 1] == before[k - 1]);
            }
        } else if 0 <= k < before.len() {
            assert(refs[k] == before[k]);
            assert(items[refs[k].mesh_index as int] == front[refs[k].mesh_index as int]);
            if k > 0 {
                assert(refs[k - 1] == before[k - 1]);
            }
        }
        if 0 <= i < front.len() && (items[i] matches Value::String(s) && s@.len() > 0) {
            assert(front[i] == items[i]);
            let j = choose|j: int| 0 <= j < before.len() && #[trigger] before[j].mesh_index == i;
            assert(refs[j].mesh_index == i);
        } else if i == items.len() - 1 && (items[i] matches Value::String(s) && s@.len() > 0) {
            assert(refs[before.len() as int].mesh_index == i);
        }
    }
}

/// The material groups of a model: each with the name and the materials under its keys, in order.
pub proof fn groups_are_what_their_keys_say(items: Seq<Value>, i: int)
    requires
        0 <= i < items.len(),
    ensures
        ({
            let g = crate::model::groups_of(items)[i];
            &&& crate::model::groups_of(items).len() == items.len()
            &&& match crate::kv::string_at(items[i], "m_name"@) {
                Some(s) => g.name == s@,
                None => g.name.len() == 0,
            }
            &&& g.materials == crate::text::texts(crate::kv::strings_at(items[i], "m_materials"@))
        }),
{
}

/// Whether an embedded mesh is what the keys of its entry say: where its name, its number, its scene
/// objects and its buffers come from.
pub open spec fn is_embedded(
    resource: Resource,
    entry: Value,
    masks: Seq<i64>,
    path: Seq<char>,
    e: EmbeddedMeshView,
    name: Seq<char>,
    number: Seq<char>,
    block: Seq<char>,
) -> bool {
    &&& match crate::kv::string_at(entry, name) {
        Some(s) => e.name == s@,
        None => e.name.len() == 0,
    }
    &&& crate::kv::signed_at(entry, number) matches Some(n) && e.mesh_index == (if 0 <= n
        <= usize::MAX {
        n as usize
    } else {
        0usize
    })
    &&& e.lod_mask == (if e.mesh_index < masks.len() {
        masks[e.mesh_index as int]
    } else {
        0i64
    })
    &&& crate::kv::signed_at(entry, block) matches Some(at) && {
        &&& crate::kv::filled_block(resource, at as int) matches Some(b) && {
            &&& b.tree matches Ok(root) && crate::mesh::scene_objects_of(root, path) == Ok::<
                Seq<Seq<DrawCallView>>,
                crate::error::Fault,
            >(e.mesh.scene_objects)
        }
    }
}

/// An embedded mesh is what the keys of its entry say, in the one layout as in the other.
pub proof fn an_embedded_mesh_is_what_its_keys_say(
    resource: Resource,
    entry: Value,
    masks: Seq<i64>,
    path: Seq<char>,
)
    requires
        crate::model::embedded_mesh_of(resource, entry, masks, path) is Ok,
    ensures
        ({
            let e = crate::model::embedded_mesh_of(resource, entry, masks, path)->Ok_0;
            match crate::kv::child(entry, "vbib_block"@) {
                Some(vbib) => {
                    &&& is_embedded(
                        resource,
                        entry,
                        masks,
                        path,
                        e,
                        "name"@,
                        "mesh_index"@,
                        "data_block"@,
                    )
                    &&& crate::kv::signed_of(vbib) matches Some(at) && {
                        &&& crate::kv::filled_block(resource, at as int) matches Some(b)
                            && crate::buffer::vbib_block(b.bytes@) == Ok::<
                            (Seq<BufferView>, Seq<BufferView>),
                            crate::error::Fault,
                        >((e.mesh.vertex_buffers, e.mesh.index_buffers))
                    }
                },
                None => {
                    &&& is_embedded(
                        resource,
                        entry,
                        masks,
                        path,
                        e,
                        "m_Name"@,
                        "m_nMeshIndex"@,
                        "m_nDataBlock"@,
                    )
                    &&& crate::buffer::kv3_buffers(resource, entry, path) == Ok::<
                        (Seq<BufferView>, Seq<BufferView>),
                        crate::error::Fault,
                    >((e.mesh.vertex_buffers, e.mesh.index_buffers))
                },
            }
        }),
{
}

/// A model holds the embedded meshes of its control block, in order, the meshes it refers to, its
/// levels and its material groups, each from its own key.
pub proof fn a_model_is_what_its_keys_say(resource: Resource, i: int)
    requires
        crate::model::model_of(resource) is Ok,
    ensures
        ({
            let m = crate::model::model_of(resource)->Ok_0;
            &&& resource.data matches Ok(root) && {
                &&& m.lod == crate::model::lod_of(root)
                &&& m.ref_meshes == crate::model::refs_of(
                    crate::model::list_at(root, "m_refMeshes"@),
                    m.lod.mesh_lod_masks,
                )
                &&& m.material_groups == crate::model::groups_of(
                    crate::model::list_at(root, "m_materialGroups"@),
                )
            }
            &&& match crate::kv::block_from(resource.blocks@, crate::kv::CTRL@, 0) {
                Some(block) => block.tree matches Ok(root) && {
                    let items = crate::model::list_at(root, "embedded_meshes"@);
                    &&& m.embedded_meshes.len() == items.len()
                    &&& 0 <= i < items.len() ==> crate::model::embedded_mesh_of(
                        resource,
                        items[i],
                        m.lod.mesh_lod_masks,
                        crate::text::item_path("CTRL"@, "embedded_meshes"@, i),
                    ) == Ok::<EmbeddedMeshView, crate::error::Fault>(m.embedded_meshes[i])
                },
                None => m.embedded_meshes.len() == 0,
            }
        }),
{
    let m = crate::model::model_of(resource)->Ok_0;
    match crate::kv::block_from(resource.blocks@, crate::kv::CTRL@, 0) {
        Some(block) => {
            let root = block.tree->Ok_0;
            let items = crate::model::list_at(root, "embedded_meshes"@);
            let step = crate::model::embedded_step(resource, items, m.lod.mesh_lod_masks);
            crate::error::lemma_gathered(step, items.len());
            if 0 <= i < items.len() {
                assert(step(i) == Ok::<EmbeddedMeshView, crate::error::Fault>(
                    m.embedded_meshes[i],
                ));
            }
        },
        None => {},
    }
}

/// A mesh of its own has its buffers from its binary block, where it has one, and from its tree
/// otherwise, and its scene objects from its tree.
pub proof fn a_mesh_has_its_buffers_and_its_objects(resource: Resource, path: Seq<char>)
    requires
        crate::mesh::mesh_of(resource, path) is Ok,
    ensures
        ({
            let m = crate::mesh::mesh_of(resource, path)->Ok_0;
            resource.data matches Ok(root) && {
                &&& crate::mesh::scene_objects_of(root, path) == Ok::<
                    Seq<Seq<DrawCallView>>,
                    crate::error::Fault,
                >(m.scene_objects)
                &&& Ok::<(Seq<BufferView>, Seq<BufferView>), crate::error::Fault>(
                    (m.vertex_buffers, m.index_buffers),
                ) == match crate::kv::block_from(resource.blocks@, crate::kv::VBIB@, 0) {
                    Some(block) => crate::buffer::vbib_block(block.bytes@),
                    None => crate::buffer::kv3_buffers(resource, root, path),
                }
            }
        }),
{
}

} // verus!
