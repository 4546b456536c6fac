//! A render mesh: decompressed vertex and index buffers, and the draw calls of its scene objects.

use crate::buffer::{parse_kv3_buffers, parse_vbib_block, require_array, Buffer};
use crate::error::{Fault, MeshError};
use crate::kv::{Resource, Value, VBIB};
use crate::text::{eq_ignore_ascii_case, join_item, join_key};
use vstd::prelude::*;

verus! {

/// The flags of a draw call: a name, a number, or neither.
#[derive(Debug, Clone)]
pub enum DrawCallFlags {
    Unset,
    Named(String),
    Int(i64),
}

/// [`DrawCallFlags`] with the name as a sequence of characters.
pub enum FlagsView {
    Unset,
    Named(Seq<char>),
    Int(i64),
}

impl View for DrawCallFlags {
    type V = FlagsView;

    open spec fn view(&self) -> FlagsView {
        match *self {
            DrawCallFlags::Unset => FlagsView::Unset,
            DrawCallFlags::Named(s) => FlagsView::Named(s@),
            DrawCallFlags::Int(i) => FlagsView::Int(i),
        }
    }
}

/// One draw call.
#[derive(Debug, Clone)]
pub struct DrawCall {
    /// `m_material`, else `m_pMaterial`.
    pub material_path: Option<String>,
    pub is_triangle_list: bool,
    pub base_vertex: i64,
    pub start_index: i64,
    pub index_count: i64,
    pub vertex_count: i64,
    /// An index into [`Mesh::index_buffers`].
    pub index_buffer: usize,
    /// Indices into [`Mesh::vertex_buffers`], one per stream.
    pub vertex_buffers: Vec<usize>,
    /// The tint, as the bits of three singles.
    pub tint_color: Option<[u32; 3]>,
    /// The opacity, as the bits of a single.
    pub alpha: Option<u32>,
    pub flags: DrawCallFlags,
    /// Whether the lightmap holds the baked light of this draw call.
    pub has_baked_lighting_from_lightmap: bool,
}

/// A [`DrawCall`] as plain values.
pub struct DrawCallView {
    pub material_path: Option<Seq<char>>,
    pub is_triangle_list: bool,
    pub base_vertex: i64,
    pub start_index: i64,
    pub index_count: i64,
    pub vertex_count: i64,
    pub index_buffer: usize,
    pub vertex_buffers: Seq<usize>,
    pub tint_color: Option<Seq<u32>>,
    pub alpha: Option<u32>,
    pub flags: FlagsView,
    pub has_baked_lighting_from_lightmap: bool,
}

/// Three optional singles as a sequence.
pub open spec fn triple(t: Option<[u32; 3]>) -> Option<Seq<u32>> {
    match t {
        Some(a) => Some(a@),
        None => None,
    }
}

impl View for DrawCall {
    type V = DrawCallView;

    open spec fn view(&self) -> DrawCallView {
        DrawCallView {
            material_path: crate::text::opt_text(self.material_path),
            is_triangle_list: self.is_triangle_list,
            base_vertex: self.base_vertex,
            start_index: self.start_index,
            index_count: self.index_count,
            vertex_count: self.vertex_count,
            index_buffer: self.index_buffer,
            vertex_buffers: self.vertex_buffers@,
            tint_color: triple(self.tint_color),
            alpha: self.alpha,
            flags: self.flags@,
            has_baked_lighting_from_lightmap: self.has_baked_lighting_from_lightmap,
        }
    }
}

/// One scene object of a mesh.
#[derive(Debug, Clone)]
pub struct SceneObject {
    pub draw_calls: Vec<DrawCall>,
}

/// The views of a list of draw calls.
pub open spec fn draw_call_views(v: Seq<DrawCall>) -> Seq<DrawCallView> {
    Seq::new(v.len(), |i: int| v[i]@)
}

impl View for SceneObject {
    type V = Seq<DrawCallView>;

    open spec fn view(&self) -> Seq<DrawCallView> {
        draw_call_views(self.draw_calls@)
    }
}

/// The views of a list of scene objects.
pub open spec fn scene_object_views(v: Seq<SceneObject>) -> Seq<Seq<DrawCallView>> {
    Seq::new(v.len(), |i: int| v[i]@)
}

/// A decoded render mesh.
#[derive(Debug, Clone)]
pub struct Mesh {
    pub vertex_buffers: Vec<Buffer>,
    pub index_buffers: Vec<Buffer>,
    pub scene_objects: Vec<SceneObject>,
}

/// A [`Mesh`] as plain values.
pub struct MeshView {
    pub vertex_buffers: Seq<crate::buffer::BufferView>,
    pub index_buffers: Seq<crate::buffer::BufferView>,
    pub scene_objects: Seq<Seq<DrawCallView>>,
}

impl View for Mesh {
    type V = MeshView;

    open spec fn view(&self) -> MeshView {
        MeshView {
            vertex_buffers: crate::buffer::buffer_views(self.vertex_buffers@),
            index_buffers: crate::buffer::buffer_views(self.index_buffers@),
            scene_objects: scene_object_views(self.scene_objects@),
        }
    }
}

impl Default for Mesh {
    fn default() -> (r: Mesh)
        ensures
            r.vertex_buffers@.len() == 0,
            r.index_buffers@.len() == 0,
            r.scene_objects@.len() == 0,
    {
        Mesh { vertex_buffers: Vec::new(), index_buffers: Vec::new(), scene_objects: Vec::new() }
    }
}

/// The vertex count of the smallest of the buffers that `handles` names; a handle without a buffer
/// bounds nothing.
pub open spec fn smallest_count(
    buffers: Seq<crate::buffer::BufferView>,
    handles: Seq<usize>,
) -> Option<usize>
    decreases handles.len(),
{
    if handles.len() == 0 {
        None
    } else {
        let before = smallest_count(buffers, handles.drop_last());
        if handles.last() < buffers.len() {
            let n = buffers[handles.last() as int].element_count as usize;
            match before {
                Some(m) => Some(
                    if m <= n {
                        m
                    } else {
                        n
                    },
                ),
                None => Some(n),
            }
        } else {
            before
        }
    }
}

/// `v` held to the range of `i64`.
pub open spec fn held_to_i64(v: int) -> i64 {
    if v < i64::MIN {
        i64::MIN
    } else if v > i64::MAX {
        i64::MAX
    } else {
        v as i64
    }
}

/// An out-of-range error.
pub open spec fn out_of_range(path: Seq<char>, index: i64, len: usize) -> Fault {
    Fault::IndexOutOfRange { path, index, len }
}

/// The vertex that a stored index stands for: moved by the base vertex, and below the bound.
pub open spec fn resolved_index(raw: u32, base: i64, bound: Option<usize>) -> Result<u32, Fault> {
    let v = raw + base;
    if v < 0 || v > u32::MAX {
        Err(
            out_of_range(
                "m_nBaseVertex"@,
                held_to_i64(v),
                match bound {
                    Some(b) => b,
                    None => 0,
                },
            ),
        )
    } else {
        match bound {
            Some(b) => if v >= b {
                Err(out_of_range("m_vertexBuffers"@, v as i64, b))
            } else {
                Ok(v as u32)
            },
            None => Ok(v as u32),
        }
    }
}

/// The vertices of the indices from `start` on.
pub open spec fn index_step(
    data: Seq<u8>,
    size: int,
    start: int,
    base: i64,
    bound: Option<usize>,
) -> spec_fn(int) -> Result<u32, Fault> {
    |i: int|
        match crate::buffer::stored_index(data, size, start + i) {
            Some(raw) => resolved_index(raw, base, bound),
            None => Err(
                out_of_range("m_indexBuffer"@, (start + i) as i64, (data.len() as int / size) as usize),
            ),
        }
}

/// Whether a number can be an offset or a count.
pub open spec fn is_size(v: i64) -> bool {
    0 <= v <= usize::MAX
}

/// The vertices that a draw call draws, in order: `m_nIndexCount` indices from `m_nStartIndex` on,
/// each moved by `m_nBaseVertex`. Everything is held against the mesh's own data: the range against
/// the index buffer, and each vertex against the smallest of the vertex buffers.
pub open spec fn drawn_vertices(dc: DrawCallView, mesh: MeshView) -> Result<Seq<u32>, Fault> {
    if dc.index_buffer >= mesh.index_buffers.len() {
        Err(
            out_of_range(
                "m_indexBuffer.m_hBuffer"@,
                dc.index_buffer as i64,
                mesh.index_buffers.len() as usize,
            ),
        )
    } else if !is_size(dc.start_index) {
        Err(Fault::WrongType { path: "m_nStartIndex"@, expected: "non-negative"@ })
    } else if !is_size(dc.index_count) {
        Err(Fault::WrongType { path: "m_nIndexCount"@, expected: "non-negative"@ })
    } else {
        let buf = mesh.index_buffers[dc.index_buffer as int];
        if buf.element_size != 2 && buf.element_size != 4 {
            Err(Fault::BadIndexElementSize { path: "m_indexBuffer"@, size: buf.element_size })
        } else {
            let have = buf.data.len() / (buf.element_size as nat);
            if dc.start_index + dc.index_count > have {
                Err(
                    out_of_range(
                        "m_nStartIndex + m_nIndexCount"@,
                        dc.index_count,
                        have as usize,
                    ),
                )
            } else {
                crate::error::gather(
                    index_step(
                        buf.data,
                        buf.element_size as int,
                        dc.start_index as int,
                        dc.base_vertex,
                        smallest_count(mesh.vertex_buffers, dc.vertex_buffers),
                    ),
                    dc.index_count as nat,
                )
            }
        }
    }
}

/// Finds the vertex count of the smallest of the buffers that `handles` names.
fn find_smallest_count(buffers: &Vec<Buffer>, handles: &Vec<usize>) -> (r: Option<usize>)
    ensures
        r == smallest_count(crate::buffer::buffer_views(buffers@), handles@),
{
    let mut bound: Option<usize> = None;
    let mut i: usize = 0;
    while i < handles.len()
        invariant
            i <= handles@.len(),
            bound == smallest_count(
                crate::buffer::buffer_views(buffers@),
                handles@.take(i as int),
            ),
        decreases handles@.len() - i,
    {
        proof {
            let t = handles@.take(i as int + 1);
            assert(t.drop_last() =~= handles@.take(i as int));
            assert(t.last() == handles@[i as int]);
        }
        let h: usize = handles[i];
        if h < buffers.len() {
            let n: usize = buffers[h].element_count as usize;
            bound = match bound {
                Some(m) => Some(
                    if m <= n {
                        m
                    } else {
                        n
                    },
                ),
                None => Some(n),
            };
        }
        i += 1;
    }
    assert(handles@.take(i as int) =~= handles@);
    bound
}

/// Moves a stored index by the base vertex and holds it against the bound.
fn resolve_index(raw: u32, base: i64, bound: Option<usize>) -> (r: Result<u32, MeshError>)
    ensures
        match r {
            Ok(v) => resolved_index(raw, base, bound) == Ok::<u32, Fault>(v),
            Err(e) => resolved_index(raw, base, bound) == Err::<u32, Fault>(crate::error::known(e@)),
        },
{
    let v: i128 = (raw as i128) + (base as i128);
    if v < 0 || v > u32::MAX as i128 {
        let index: i64 = if v > i64::MAX as i128 {
            i64::MAX
        } else {
            v as i64
        };
        return Err(
            MeshError::IndexOutOfRange {
                path: "m_nBaseVertex".to_owned(),
                index,
                len: match bound {
                    Some(b) => b,
                    None => 0,
                },
            },
        );
    }
    let resolved: u32 = v as u32;
    match bound {
        Some(b) => {
            if resolved as u64 >= b as u64 {
                return Err(
                    MeshError::IndexOutOfRange {
                        path: "m_vertexBuffers".to_owned(),
                        index: resolved as i64,
                        len: b,
                    },
                );
            }
        },
        None => {},
    }
    Ok(resolved)
}

impl DrawCall {
    /// The vertices that this draw call draws, in order.
    pub fn resolve_indices(&self, mesh: &Mesh) -> (r: Result<Vec<u32>, MeshError>)
        ensures
            crate::error::outcome(r) == drawn_vertices(self@, mesh@),
            r matches Ok(v) ==> v@.len() == self.index_count,
    {
        if self.index_buffer >= mesh.index_buffers.len() {
            return Err(
                MeshError::IndexOutOfRange {
                    path: "m_indexBuffer.m_hBuffer".to_owned(),
                    index: #[verifier::truncate] (self.index_buffer as i64),
                    len: mesh.index_buffers.len(),
                },
            );
        }
        let buf: &Buffer = &mesh.index_buffers[self.index_buffer];
        assert(mesh@.index_buffers[self.index_buffer as int] == buf@);
        if self.start_index < 0 || self.start_index as u64 > usize::MAX as u64 {
            return Err(
                MeshError::WrongType {
                    path: "m_nStartIndex".to_owned(),
                    expected: "non-negative",
                },
            );
        }
        if self.index_count < 0 || self.index_count as u64 > usize::MAX as u64 {
            return Err(
                MeshError::WrongType {
                    path: "m_nIndexCount".to_owned(),
                    expected: "non-negative",
                },
            );
        }
        let start: usize = self.start_index as usize;
        let count: usize = self.index_count as usize;
        if buf.element_size != 2 && buf.element_size != 4 {
            return Err(
                MeshError::BadIndexElementSize {
                    path: "m_indexBuffer".to_owned(),
                    size: buf.element_size,
                },
            );
        }
        let have: usize = buf.data.len() / (buf.element_size as usize);
        let fits: bool = match start.checked_add(count) {
            Some(end) => end <= have,
            None => false,
        };
        if !fits {
            return Err(
                MeshError::IndexOutOfRange {
                    path: "m_nStartIndex + m_nIndexCount".to_owned(),
                    index: self.index_count,
                    len: have,
                },
            );
        }
        let bound: Option<usize> = find_smallest_count(&mesh.vertex_buffers, &self.vertex_buffers);
        let ghost step = index_step(
            buf.data@,
            buf.element_size as int,
            start as int,
            self.base_vertex,
            bound,
        );
        let mut out: Vec<u32> = Vec::new();
        let mut i: usize = 0;
        while i < count
            invariant
                i <= count,
                count == self.index_count,
                start + count <= have,
                have == buf.data@.len() / (buf.element_size as nat),
                buf.element_size == 2 || buf.element_size == 4,
                step == index_step(
                    buf.data@,
                    buf.element_size as int,
                    start as int,
                    self.base_vertex,
                    bound,
                ),
                drawn_vertices(self@, mesh@) == crate::error::gather(step, count as nat),
                out@.len() == i,
                crate::error::gather(step, i as nat) == Ok::<Seq<u32>, Fault>(out@),
            decreases count - i,
        {
            assert(crate::buffer::stored_index(
                buf.data@,
                buf.element_size as int,
                (start + i) as int,
            ) is Some);
            let raw: u32 = match buf.index_at(start + i) {
                Some(raw) => raw,
                None => {
                    assert(false);
                    0
                },
            };
            match resolve_index(raw, self.base_vertex, bound) {
                Ok(v) => {
                    out.push(v);
                },
                Err(e) => {
                    proof {
                        assert(step(i as int) == Err::<u32, Fault>(crate::error::known(e@)));
                        crate::error::lemma_gather_refused(step, (i + 1) as nat, count as nat);
                    }
                    return Err(e);
                },
            }
            i += 1;
        }
        Ok(out)
    }
}

/// The bound that [`smallest_count`] gives is no larger than any buffer that the handles name.
proof fn lemma_smallest_count(
    buffers: Seq<crate::buffer::BufferView>,
    handles: Seq<usize>,
    k: int,
)
    requires
        0 <= k < handles.len(),
        handles[k] < buffers.len(),
    ensures
        smallest_count(buffers, handles) is Some,
        smallest_count(buffers, handles)->Some_0 <= buffers[handles[k] as int].element_count,
    decreases handles.len(),
{
    if k < handles.len() - 1 {
        lemma_smallest_count(buffers, handles.drop_last(), k);
        assert(handles.drop_last()[k] == handles[k]);
    }
}

/// Every vertex that a draw call draws lies inside every vertex buffer that the draw call reads,
/// so an attribute array can be indexed with it.
pub proof fn drawn_vertices_exist(dc: DrawCallView, mesh: MeshView, i: int, k: int)
    requires
        drawn_vertices(dc, mesh) is Ok,
        0 <= i < drawn_vertices(dc, mesh)->Ok_0.len(),
        0 <= k < dc.vertex_buffers.len(),
        dc.vertex_buffers[k] < mesh.vertex_buffers.len(),
    ensures
        drawn_vertices(dc, mesh)->Ok_0[i]
            < mesh.vertex_buffers[dc.vertex_buffers[k] as int].element_count,
{
    let buf = mesh.index_buffers[dc.index_buffer as int];
    let bound = smallest_count(mesh.vertex_buffers, dc.vertex_buffers);
    let step = index_step(
        buf.data,
        buf.element_size as int,
        dc.start_index as int,
        dc.base_vertex,
        bound,
    );
    crate::error::lemma_gathered(step, dc.index_count as nat);
    lemma_smallest_count(mesh.vertex_buffers, dc.vertex_buffers, k);
    assert(step(i) == Ok::<u32, Fault>(drawn_vertices(dc, mesh)->Ok_0[i]));
}

/// A draw call that draws at all draws exactly as many vertices as it declares indices.
pub proof fn draws_what_it_declares(dc: DrawCallView, mesh: MeshView)
    requires
        drawn_vertices(dc, mesh) is Ok,
    ensures
        drawn_vertices(dc, mesh)->Ok_0.len() == dc.index_count,
{
    let buf = mesh.index_buffers[dc.index_buffer as int];
    let step = index_step(
        buf.data,
        buf.element_size as int,
        dc.start_index as int,
        dc.base_vertex,
        smallest_count(mesh.vertex_buffers, dc.vertex_buffers),
    );
    crate::error::lemma_gathered(step, dc.index_count as nat);
}

/// The integer under `key`.
pub open spec fn required_i64(v: Value, key: Seq<char>, path: Seq<char>) -> Result<i64, Fault> {
    match crate::kv::signed_at(v, key) {
        Some(i) => Ok(i),
        None => Err(Fault::Missing { path: crate::text::key_path(path, key) }),
    }
}

/// The integer under `key`; an error where there is none.
pub fn require_i64(v: &Value, key: &str, path: &str) -> (r: Result<i64, MeshError>)
    ensures
        match r {
            Ok(i) => required_i64(*v, key@, path@) == Ok::<i64, Fault>(i),
            Err(e) => required_i64(*v, key@, path@) == Err::<i64, Fault>(crate::error::known(e@)),
        },
{
    match v.get_i64(key) {
        Some(i) => Ok(i),
        None => Err(MeshError::Missing { path: join_key(path, key) }),
    }
}

/// Three singles: the first three items of the list under `key`, all of them numbers.
pub open spec fn three_singles(v: Value, key: Seq<char>) -> Option<Seq<u32>> {
    match crate::kv::items_at(v, key) {
        Some(a) => if a.len() < 3 {
            None
        } else {
            match (
                crate::kv::single_of(a[0]),
                crate::kv::single_of(a[1]),
                crate::kv::single_of(a[2]),
            ) {
                (Some(x), Some(y), Some(z)) => Some(seq![x, y, z]),
                _ => None,
            }
        },
        None => None,
    }
}

/// Three singles from the list under `key`.
pub fn vec3(v: &Value, key: &str) -> (r: Option<[u32; 3]>)
    ensures
        triple(r) == three_singles(*v, key@),
{
    match v.get_array(key) {
        Some(a) => {
            if a.len() < 3 {
                return None;
            }
            match (a[0].as_f32(), a[1].as_f32(), a[2].as_f32()) {
                (Some(x), Some(y), Some(z)) => {
                    let t: [u32; 3] = [x, y, z];
                    assert(t@ =~= seq![x, y, z]);
                    Some(t)
                },
                _ => None,
            }
        },
        None => None,
    }
}

/// The flags under `key`.
pub open spec fn flags_at(v: Value, key: Seq<char>) -> FlagsView {
    match crate::kv::child(v, key) {
        Some(f) => match f {
            Value::String(s) => FlagsView::Named(s@),
            _ => match crate::kv::signed_of(f) {
                Some(i) => FlagsView::Int(i),
                None => FlagsView::Unset,
            },
        },
        None => FlagsView::Unset,
    }
}

/// Reads the flags under `key`.
pub fn draw_call_flags(v: &Value, key: &str) -> (r: DrawCallFlags)
    ensures
        r@ == flags_at(*v, key@),
{
    match v.get(key) {
        Some(f) => match f.as_str() {
            Some(s) => DrawCallFlags::Named(s.clone()),
            None => match f.as_i64() {
                Some(i) => DrawCallFlags::Int(i),
                None => DrawCallFlags::Unset,
            },
        },
        None => DrawCallFlags::Unset,
    }
}

/// The buffer that a binding names.
pub open spec fn handle_of(v: Value, path: Seq<char>) -> Result<usize, Fault> {
    match crate::kv::signed_at(v, "m_hBuffer"@) {
        None => Err(Fault::Missing { path: crate::text::key_path(path, "m_hBuffer"@) }),
        Some(h) => if is_size(h) {
            Ok(h as usize)
        } else {
            Err(
                Fault::WrongType {
                    path: crate::text::key_path(path, "m_hBuffer"@),
                    expected: "non-negative buffer handle"@,
                },
            )
        },
    }
}

/// Reads the buffer that a binding names.
pub fn buffer_handle(v: &Value, path: &str) -> (r: Result<usize, MeshError>)
    ensures
        match r {
            Ok(h) => handle_of(*v, path@) == Ok::<usize, Fault>(h),
            Err(e) => handle_of(*v, path@) == Err::<usize, Fault>(crate::error::known(e@)),
        },
{
    match v.get_i64("m_hBuffer") {
        None => Err(MeshError::Missing { path: join_key(path, "m_hBuffer") }),
        Some(h) => {
            if h < 0 || h as u64 > usize::MAX as u64 {
                return Err(
                    MeshError::WrongType {
                        path: join_key(path, "m_hBuffer"),
                        expected: "non-negative buffer handle",
                    },
                );
            }
            Ok(h as usize)
        },
    }
}

/// The material of a draw call.
pub open spec fn material_of(v: Value) -> Option<Seq<char>> {
    match crate::kv::string_at(v, "m_material"@) {
        Some(s) => Some(s@),
        None => crate::text::opt_text(crate::kv::string_at(v, "m_pMaterial"@)),
    }
}

/// Whether the primitives of a draw call are triangles: by name, or by number.
pub open spec fn draws_triangles(v: Value) -> bool {
    match crate::kv::child(v, "m_nPrimitiveType"@) {
        Some(p) => match p {
            Value::String(s) => crate::text::same_ignoring_case(s@, "RENDER_PRIM_TRIANGLES"@),
            _ => crate::kv::signed_of(p) == Some(5i64),
        },
        None => false,
    }
}

/// Whether the primitives of a draw call are triangles.
fn is_triangles(v: &Value) -> (r: bool)
    ensures
        r == draws_triangles(*v),
{
    match v.get("m_nPrimitiveType") {
        Some(p) => match p.as_str() {
            Some(s) => eq_ignore_ascii_case(s.as_str(), "RENDER_PRIM_TRIANGLES"),
            None => match p.as_i64() {
                Some(i) => i == 5,
                None => false,
            },
        },
        None => false,
    }
}

/// The handles of a list of bindings.
pub open spec fn handle_step(items: Seq<Value>, path: Seq<char>) -> spec_fn(int) -> Result<
    usize,
    Fault,
> {
    |i: int| handle_of(items[i], crate::text::item_path(path, "m_vertexBuffers"@, i))
}

/// The vertex buffers that a draw call reads; none where the key is absent.
pub open spec fn handles_of(v: Value, path: Seq<char>) -> Result<Seq<usize>, Fault> {
    match crate::kv::child(v, "m_vertexBuffers"@) {
        None => Ok(Seq::empty()),
        Some(list) => match crate::buffer::required_items(
            list,
            crate::text::key_path(path, "m_vertexBuffers"@),
        ) {
            Err(f) => Err(f),
            Ok(items) => crate::error::gather(handle_step(items, path), items.len()),
        },
    }
}

/// Reads the vertex buffers that a draw call reads.
fn parse_handles(v: &Value, path: &str) -> (r: Result<Vec<usize>, MeshError>)
    ensures
        crate::error::outcome(r) == handles_of(*v, path@),
{
    let mut out: Vec<usize> = Vec::new();
    let list: &Value = match v.get("m_vertexBuffers") {
        None => {
            assert(out@ =~= Seq::<usize>::empty());
            return Ok(out);
        },
        Some(l) => l,
    };
    let at: String = join_key(path, "m_vertexBuffers");
    let items: &Vec<Value> = match require_array(list, at.as_str()) {
        Ok(a) => a,
        Err(e) => {
            return Err(e);
        },
    };
    let ghost step = handle_step(items@, path@);
    let mut i: usize = 0;
    while i < items.len()
        invariant
            i <= items@.len(),
            step == handle_step(items@, path@),
            handles_of(*v, path@) == crate::error::gather(step, items@.len()),
            crate::error::gather(step, i as nat) == Ok::<Seq<usize>, Fault>(out@),
        decreases items@.len() - i,
    {
        let at: String = join_item(path, "m_vertexBuffers", i);
        match buffer_handle(&items[i], at.as_str()) {
            Ok(h) => {
                out.push(h);
            },
            Err(e) => {
                proof {
                    assert(step(i as int) == Err::<usize, Fault>(crate::error::known(e@)));
                    crate::error::lemma_gather_refused(step, (i + 1) as nat, items@.len());
                }
                return Err(e);
            },
        }
        i += 1;
    }
    Ok(out)
}

/// One draw call of a key-value tree.
pub open spec fn draw_call_of(v: Value, path: Seq<char>) -> Result<DrawCallView, Fault> {
    match crate::kv::child(v, "m_indexBuffer"@) {
        None => Err(Fault::Missing { path: crate::text::key_path(path, "m_indexBuffer"@) }),
        Some(ib) => match handle_of(ib, crate::text::key_path(path, "m_indexBuffer"@)) {
            Err(f) => Err(f),
            Ok(index_buffer) => match handles_of(v, path) {
                Err(f) => Err(f),
                Ok(vertex_buffers) => match (
                    required_i64(v, "m_nBaseVertex"@, path),
                    required_i64(v, "m_nStartIndex"@, path),
                    required_i64(v, "m_nIndexCount"@, path),
                    required_i64(v, "m_nVertexCount"@, path),
                ) {
                    (Err(f), _, _, _) => Err(f),
                    (_, Err(f), _, _) => Err(f),
                    (_, _, Err(f), _) => Err(f),
                    (_, _, _, Err(f)) => Err(f),
                    (
                        Ok(base_vertex),
                        Ok(start_index),
                        Ok(index_count),
                        Ok(vertex_count),
                    ) => Ok(
                        DrawCallView {
                            material_path: material_of(v),
                            is_triangle_list: draws_triangles(v),
                            base_vertex,
                            start_index,
                            index_count,
                            vertex_count,
                            index_buffer,
                            vertex_buffers,
                            tint_color: three_singles(v, "m_vTintColor"@),
                            alpha: crate::kv::single_at(v, "m_flAlpha"@),
                            flags: flags_at(v, "m_nFlags"@),
                            has_baked_lighting_from_lightmap: crate::buffer::flag_at(
                                v,
                                "m_bHasBakedLightingFromLightMap"@,
                            ),
                        },
                    ),
                },
            },
        },
    }
}

/// Decodes one draw call.
pub fn parse_draw_call(v: &Value, path: &str) -> (r: Result<DrawCall, MeshError>)
    ensures
        crate::error::outcome(r) == draw_call_of(*v, path@),
        r matches Ok(dc) ==> {
            &&& crate::kv::signed_at(*v, "m_nBaseVertex"@) == Some(dc.base_vertex)
            &&& crate::kv::signed_at(*v, "m_nStartIndex"@) == Some(dc.start_index)
            &&& crate::kv::signed_at(*v, "m_nIndexCount"@) == Some(dc.index_count)
            &&& crate::kv::signed_at(*v, "m_nVertexCount"@) == Some(dc.vertex_count)
            &&& crate::kv::single_at(*v, "m_flAlpha"@) == dc.alpha
        },
{
    let material_path: Option<String> = match v.get_string("m_material") {
        Some(s) => Some(s),
        None => v.get_string("m_pMaterial"),
    };
    let is_triangle_list: bool = is_triangles(v);
    let at: String = join_key(path, "m_indexBuffer");
    let index_buffer: usize = match v.get("m_indexBuffer") {
        None => {
            return Err(MeshError::Missing { path: at });
        },
        Some(ib) => match buffer_handle(ib, at.as_str()) {
            Ok(h) => h,
            Err(e) => {
                return Err(e);
            },
        },
    };
    let vertex_buffers: Vec<usize> = match parse_handles(v, path) {
        Ok(h) => h,
        Err(e) => {
            return Err(e);
        },
    };
    let base_vertex: i64 = match require_i64(v, "m_nBaseVertex", path) {
        Ok(i) => i,
        Err(e) => {
            return Err(e);
        },
    };
    let start_index: i64 = match require_i64(v, "m_nStartIndex", path) {
        Ok(i) => i,
        Err(e) => {
            return Err(e);
        },
    };
    let index_count: i64 = match require_i64(v, "m_nIndexCount", path) {
        Ok(i) => i,
        Err(e) => {
            return Err(e);
        },
    };
    let vertex_count: i64 = match require_i64(v, "m_nVertexCount", path) {
        Ok(i) => i,
        Err(e) => {
            return Err(e);
        },
    };
    Ok(
        DrawCall {
            material_path,
            is_triangle_list,
            base_vertex,
            start_index,
            index_count,
            vertex_count,
            index_buffer,
            vertex_buffers,
            tint_color: vec3(v, "m_vTintColor"),
            alpha: v.get_f32("m_flAlpha"),
            flags: draw_call_flags(v, "m_nFlags"),
            has_baked_lighting_from_lightmap: crate::buffer::flag(
                v,
                "m_bHasBakedLightingFromLightMap",
            ),
        },
    )
}

/// The draw calls of a list.
pub open spec fn draw_call_step(items: Seq<Value>, path: Seq<char>) -> spec_fn(int) -> Result<
    DrawCallView,
    Fault,
> {
    |i: int| draw_call_of(items[i], crate::text::item_path(path, "m_drawCalls"@, i))
}

/// The draw calls of one scene object; none where the key is absent.
pub open spec fn scene_object_of(v: Value, path: Seq<char>) -> Result<Seq<DrawCallView>, Fault> {
    match crate::kv::child(v, "m_drawCalls"@) {
        None => Ok(Seq::empty()),
        Some(list) => match crate::buffer::required_items(
            list,
            crate::text::key_path(path, "m_drawCalls"@),
        ) {
            Err(f) => Err(f),
            Ok(items) => crate::error::gather(draw_call_step(items, path), items.len()),
        },
    }
}

/// Decodes one scene object.
fn parse_scene_object(v: &Value, path: &str) -> (r: Result<SceneObject, MeshError>)
    ensures
        crate::error::outcome(r) == scene_object_of(*v, path@),
{
    let mut out: Vec<DrawCall> = Vec::new();
    assert(draw_call_views(out@) =~= Seq::<DrawCallView>::empty());
    let list: &Value = match v.get("m_drawCalls") {
        None => {
            return Ok(SceneObject { draw_calls: out });
        },
        Some(l) => l,
    };
    let at: String = join_key(path, "m_drawCalls");
    let items: &Vec<Value> = match require_array(list, at.as_str()) {
        Ok(a) => a,
        Err(e) => {
            return Err(e);
        },
    };
    let ghost step = draw_call_step(items@, path@);
    let mut i: usize = 0;
    while i < items.len()
        invariant
            i <= items@.len(),
            step == draw_call_step(items@, path@),
            scene_object_of(*v, path@) == crate::error::gather(step, items@.len()),
            crate::error::gather(step, i as nat) == Ok::<Seq<DrawCallView>, Fault>(
                draw_call_views(out@),
            ),
        decreases items@.len() - i,
    {
        let at: String = join_item(path, "m_drawCalls", i);
        match parse_draw_call(&items[i], at.as_str()) {
            Ok(dc) => {
                proof {
                    assert(draw_call_views(out@.push(dc)) =~= draw_call_views(out@).push(dc@));
                }
                out.push(dc);
            },
            Err(e) => {
                proof {
                    assert(step(i as int) == Err::<DrawCallView, Fault>(crate::error::known(e@)));
                    crate::error::lemma_gather_refused(step, (i + 1) as nat, items@.len());
                }
                return Err(e);
            },
        }
        i += 1;
    }
    Ok(SceneObject { draw_calls: out })
}

/// The scene objects of a list.
pub open spec fn scene_step(items: Seq<Value>, path: Seq<char>) -> spec_fn(int) -> Result<
    Seq<DrawCallView>,
    Fault,
> {
    |i: int| scene_object_of(items[i], crate::text::item_path(path, "m_sceneObjects"@, i))
}

/// The scene objects of a key-value root; none where the key is absent.
pub open spec fn scene_objects_of(root: Value, path: Seq<char>) -> Result<
    Seq<Seq<DrawCallView>>,
    Fault,
> {
    match crate::kv::child(root, "m_sceneObjects"@) {
        None => Ok(Seq::empty()),
        Some(list) => match crate::buffer::required_items(
            list,
            crate::text::key_path(path, "m_sceneObjects"@),
        ) {
            Err(f) => Err(f),
            Ok(items) => crate::error::gather(scene_step(items, path), items.len()),
        },
    }
}

/// What a decoder of scene objects gave back, as plain values.
pub open spec fn scene_outcome(r: Result<Vec<SceneObject>, MeshError>) -> Result<
    Seq<Seq<DrawCallView>>,
    Fault,
> {
    match r {
        Ok(v) => Ok(scene_object_views(v@)),
        Err(e) => Err(crate::error::known(e@)),
    }
}

/// Decodes the scene objects and draw calls of a key-value root.
pub fn decode_scene_objects(root: &Value, path: &str) -> (r: Result<Vec<SceneObject>, MeshError>)
    ensures
        scene_outcome(r) == scene_objects_of(*root, path@),
{
    let mut out: Vec<SceneObject> = Vec::new();
    assert(scene_object_views(out@) =~= Seq::<Seq<DrawCallView>>::empty());
    let list: &Value = match root.get("m_sceneObjects") {
        None => {
            return Ok(out);
        },
        Some(l) => l,
    };
    let at: String = join_key(path, "m_sceneObjects");
    let items: &Vec<Value> = match require_array(list, at.as_str()) {
        Ok(a) => a,
        Err(e) => {
            return Err(e);
        },
    };
    let ghost step = scene_step(items@, path@);
    let mut i: usize = 0;
    while i < items.len()
        invariant
            i <= items@.len(),
            step == scene_step(items@, path@),
            scene_objects_of(*root, path@) == crate::error::gather(step, items@.len()),
            crate::error::gather(step, i as nat) == Ok::<Seq<Seq<DrawCallView>>, Fault>(
                scene_object_views(out@),
            ),
        decreases items@.len() - i,
    {
        let at: String = join_item(path, "m_sceneObjects", i);
        match parse_scene_object(&items[i], at.as_str()) {
            Ok(so) => {
                proof {
                    assert(scene_object_views(out@.push(so)) =~= scene_object_views(out@).push(
                        so@,
                    ));
                }
                out.push(so);
            },
            Err(e) => {
                proof {
                    assert(step(i as int) == Err::<Seq<DrawCallView>, Fault>(crate::error::known(e@)));
                    crate::error::lemma_gather_refused(step, (i + 1) as nat, items@.len());
                }
                return Err(e);
            },
        }
        i += 1;
    }
    Ok(out)
}

/// The mesh of a resource: buffers from its binary block, or from the key-value form where it has
/// none, and the scene objects of its data.
pub open spec fn mesh_of(resource: Resource, path: Seq<char>) -> Result<MeshView, Fault> {
    match resource.data {
        Err(message) => Err(Fault::Resource { path, message: message@ }),
        Ok(root) => {
            let buffers = match crate::kv::block_from(resource.blocks@, VBIB@, 0) {
                Some(block) => crate::buffer::vbib_block(block.bytes@),
                None => crate::buffer::kv3_buffers(resource, root, path),
            };
            match buffers {
                Err(f) => Err(f),
                Ok(p) => match scene_objects_of(root, path) {
                    Err(f) => Err(f),
                    Ok(scene_objects) => Ok(
                        MeshView { vertex_buffers: p.0, index_buffers: p.1, scene_objects },
                    ),
                },
            }
        },
    }
}

/// Decodes a mesh resource.
pub fn decode_mesh_resource(resource: &Resource, path: &str) -> (r: Result<Mesh, MeshError>)
    ensures
        crate::error::outcome(r) == mesh_of(*resource, path@),
{
    let root: &Value = match &resource.data {
        Ok(root) => root,
        Err(message) => {
            return Err(MeshError::Resource { path: path.to_owned(), message: message.clone() });
        },
    };
    let kind: [u8; 4] = VBIB;
    let buffers: Result<(Vec<Buffer>, Vec<Buffer>), MeshError> = match resource.block(&kind) {
        Some(block) => parse_vbib_block(block.bytes.as_slice()),
        None => parse_kv3_buffers(resource, root, path),
    };
    let (vertex_buffers, index_buffers) = match buffers {
        Ok(p) => p,
        Err(e) => {
            return Err(e);
        },
    };
    match decode_scene_objects(root, path) {
        Ok(scene_objects) => Ok(Mesh { vertex_buffers, index_buffers, scene_objects }),
        Err(e) => Err(e),
    }
}

} // verus!
