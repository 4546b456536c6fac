//! The geometry of a draw call: the vertices that it draws, each once, with their attributes, and
//! the streams that they become.

use crate::attributes::{
    decode_normals, decode_positions, decode_texcoord, FloatAttribute, Normal, NormalView, Scalar,
};
use crate::bits::F32_ONE;
use crate::buffer::{Buffer, FieldView, InputLayoutField};
use crate::error::{Fault, MeshError};
use crate::gltf::{BuilderView, GltfBuilder};
use crate::json::{Json, Members};
use crate::mesh::{DrawCall, DrawCallView, Mesh, MeshView};
use crate::report::LightingClass;
use std::collections::HashMap;
use vstd::prelude::*;

verus! {

/// The first field from `from` on with this index and, whatever its case, this name.
pub open spec fn field_among(fields: Seq<FieldView>, name: Seq<char>, index: i32, from: int) -> Option<
    FieldView,
>
    decreases fields.len() - from,
{
    if from < 0 || from >= fields.len() {
        None
    } else if fields[from].semantic_index == index && crate::text::same_ignoring_case(
        fields[from].semantic_name,
        name,
    ) {
        Some(fields[from])
    } else {
        field_among(fields, name, index, from + 1)
    }
}

/// A field is found alike among fields and among their views.
proof fn lemma_field(fields: Seq<InputLayoutField>, name: Seq<char>, index: i32, from: int)
    requires
        0 <= from <= fields.len(),
    ensures
        field_among(crate::buffer::field_views(fields), name, index, from)
            == crate::material::opt_view(crate::buffer::field_from(fields, name, index, from)),
    decreases fields.len() - from,
{
    if from < fields.len() {
        lemma_field(fields, name, index, from + 1);
    }
}

/// The first of the vertex buffers that a draw call reads, from `from` on, that has a field with
/// this name and index, and that field. Which buffer holds which field differs from mesh to mesh.
pub open spec fn stream_from(
    mesh: MeshView,
    buffers: Seq<usize>,
    name: Seq<char>,
    index: i32,
    from: int,
) -> Option<(int, FieldView)>
    decreases buffers.len() - from,
{
    if from < 0 || from >= buffers.len() {
        None
    } else {
        let b = buffers[from] as int;
        if b < mesh.vertex_buffers.len() {
            match field_among(mesh.vertex_buffers[b].fields, name, index, 0) {
                Some(f) => Some((b, f)),
                None => stream_from(mesh, buffers, name, index, from + 1),
            }
        } else {
            stream_from(mesh, buffers, name, index, from + 1)
        }
    }
}

/// The buffer and the field that hold an attribute of a draw call.
pub open spec fn stream_of(mesh: MeshView, dc: DrawCallView, name: Seq<char>, index: i32) -> Option<
    (int, FieldView),
> {
    stream_from(mesh, dc.vertex_buffers, name, index, 0)
}

/// A stream stands in a buffer that the draw call reads.
proof fn lemma_stream(mesh: MeshView, buffers: Seq<usize>, name: Seq<char>, index: i32, from: int)
    requires
        0 <= from <= buffers.len(),
    ensures
        match stream_from(mesh, buffers, name, index, from) {
            Some(s) => 0 <= s.0 < mesh.vertex_buffers.len() && exists|j: int|
                0 <= j < buffers.len() && #[trigger] buffers[j] == s.0,
            None => true,
        },
    decreases buffers.len() - from,
{
    if from < buffers.len() {
        let b = buffers[from] as int;
        lemma_stream(mesh, buffers, name, index, from + 1);
        assert(buffers[from] == b);
    }
}

/// The buffer and the field that hold an attribute of a draw call.
pub fn find_field<'b>(mesh: &'b Mesh, dc: &DrawCall, semantic: &str, index: i32) -> (r: Option<
    (&'b Buffer, &'b InputLayoutField),
>)
    ensures
        match r {
            Some(p) => {
                let s = stream_of(mesh@, dc@, semantic@, index);
                s is Some && p.0@ == mesh@.vertex_buffers[s->Some_0.0] && p.1@ == s->Some_0.1
            },
            None => stream_of(mesh@, dc@, semantic@, index) is None,
        },
{
    let ghost buffers = dc@.vertex_buffers;
    let mut i: usize = 0;
    while i < dc.vertex_buffers.len()
        invariant
            i <= dc.vertex_buffers@.len(),
            buffers == dc.vertex_buffers@,
            buffers == dc@.vertex_buffers,
            stream_from(mesh@, buffers, semantic@, index, 0) == stream_from(
                mesh@,
                buffers,
                semantic@,
                index,
                i as int,
            ),
        decreases dc.vertex_buffers@.len() - i,
    {
        let b: usize = dc.vertex_buffers[i];
        if b < mesh.vertex_buffers.len() {
            assert(mesh@.vertex_buffers[b as int] == mesh.vertex_buffers@[b as int]@);
            proof {
                lemma_field(mesh.vertex_buffers@[b as int].fields@, semantic@, index, 0);
            }
            match mesh.vertex_buffers[b].field(semantic, index) {
                Some(f) => {
                    return Some((&mesh.vertex_buffers[b], f));
                },
                None => {},
            }
        }
        i += 1;
    }
    None
}

/// Where a draw call has its indirect light from: from the lightmap where it is baked and has
/// coordinates for it, else from nowhere where its material is unlit, else from the probes.
pub open spec fn lighting_of(mesh: MeshView, dc: DrawCallView, material_unlit: bool) -> LightingClass {
    if dc.has_baked_lighting_from_lightmap && stream_of(mesh, dc, "TEXCOORD"@, 3) is Some {
        LightingClass::Lightmap
    } else if material_unlit {
        LightingClass::Unlit
    } else {
        LightingClass::Probe
    }
}

/// Where a draw call has its indirect light from.
pub fn classify_lighting(mesh: &Mesh, dc: &DrawCall, material_unlit: bool) -> (r: LightingClass)
    ensures
        r == lighting_of(mesh@, dc@, material_unlit),
{
    let has_lightmap_uv: bool = find_field(mesh, dc, "TEXCOORD", 3).is_some();
    if dc.has_baked_lighting_from_lightmap && has_lightmap_uv {
        LightingClass::Lightmap
    } else if material_unlit {
        LightingClass::Unlit
    } else {
        LightingClass::Probe
    }
}

/// The vertices of a list, each where it comes first.
pub open spec fn first_seen(v: Seq<u32>) -> Seq<u32>
    decreases v.len(),
{
    if v.len() == 0 {
        Seq::empty()
    } else {
        let before = first_seen(v.drop_last());
        if before.contains(v.last()) {
            before
        } else {
            before.push(v.last())
        }
    }
}

/// The first place of a vertex, from `from` on.
pub open spec fn place_in(v: Seq<u32>, x: u32, from: int) -> int
    decreases v.len() - from,
{
    if from < 0 || from >= v.len() {
        v.len() as int
    } else if v[from] == x {
        from
    } else {
        place_in(v, x, from + 1)
    }
}

/// A list of vertices as places among the vertices that are kept.
pub open spec fn local_indices(v: Seq<u32>) -> Seq<u32> {
    Seq::new(v.len(), |i: int| place_in(first_seen(v), v[i], 0) as u32)
}

/// Whether no vertex stands twice.
pub open spec fn all_differ(v: Seq<u32>) -> bool {
    forall|i: int, j: int| 0 <= i < j < v.len() ==> #[trigger] v[i] != #[trigger] v[j]
}

/// What the vertices that are kept are.
proof fn lemma_first_seen(v: Seq<u32>)
    ensures
        all_differ(first_seen(v)),
        first_seen(v).len() <= v.len(),
        forall|i: int| 0 <= i < v.len() ==> first_seen(v).contains(#[trigger] v[i]),
        forall|k: int| 0 <= k < first_seen(v).len() ==> v.contains(#[trigger] first_seen(v)[k]),
    decreases v.len(),
{
    if v.len() > 0 {
        let front = v.drop_last();
        let before = first_seen(front);
        let after = first_seen(v);
        lemma_first_seen(front);
        assert forall|i: int| 0 <= i < v.len() implies after.contains(#[trigger] v[i]) by {
            if i < front.len() {
                assert(before.contains(front[i]));
                let k = choose|k: int| 0 <= k < before.len() && before[k] == front[i];
                assert(after[k] == v[i]);
            } else if !before.contains(v.last()) {
                assert(after[before.len() as int] == v.last());
            }
        }
        assert forall|k: int| 0 <= k < after.len() implies v.contains(#[trigger] after[k]) by {
            if k < before.len() {
                assert(front.contains(before[k]));
                let i = choose|i: int| 0 <= i < front.len() && front[i] == before[k];
                assert(v[i] == after[k]);
            } else {
                assert(v[v.len() - 1] == after[k]);
            }
        }
    }
}

/// The place of a vertex among vertices of which none stands twice.
proof fn lemma_place(v: Seq<u32>, x: u32, from: int, k: int)
    requires
        all_differ(v),
        0 <= from <= k < v.len(),
        v[k] == x,
    ensures
        place_in(v, x, from) == k,
    decreases v.len() - from,
{
    if from < k {
        assert(v[from] != v[k]);
        lemma_place(v, x, from + 1, k);
    }
}

/// Lists of numbers of 32 bits in which none stands twice are no longer than there are numbers.
proof fn lemma_at_most(v: Seq<u32>)
    requires
        all_differ(v),
    ensures
        v.len() <= 0x1_0000_0000,
{
    let ints = v.map_values(|x: u32| x as int);
    let range = vstd::set_lib::set_int_range(0, 0x1_0000_0000);
    assert(ints.no_duplicates()) by {
        assert forall|i: int, j: int|
            0 <= i < ints.len() && 0 <= j < ints.len() && i != j implies ints[i] != ints[j] by {
            if i < j {
                assert(v[i] != v[j]);
            } else {
                assert(v[j] != v[i]);
            }
        }
    }
    ints.unique_seq_to_set();
    assert(ints.to_set().subset_of(range)) by {
        assert forall|x: int| ints.to_set().contains(x) implies range.contains(x) by {
            let i = choose|i: int| 0 <= i < ints.len() && ints[i] == x;
            let w: u32 = v[i];
            assert(ints[i] == w as int);
        }
    }
    vstd::set_lib::lemma_int_range(0, 0x1_0000_0000);
    vstd::set_lib::lemma_len_subset(ints.to_set(), range);
}

/// The place of each vertex holds the vertex: reading the kept vertices by the new list gives the
/// old list back, no kept vertex stands twice, and each is drawn.
pub proof fn places_hold_their_vertices(v: Seq<u32>)
    ensures
        local_indices(v).len() == v.len(),
        all_differ(first_seen(v)),
        forall|i: int|
            0 <= i < v.len() ==> (#[trigger] local_indices(v)[i]) < first_seen(v).len()
                && first_seen(v)[local_indices(v)[i] as int] == v[i],
        forall|k: int| 0 <= k < first_seen(v).len() ==> v.contains(#[trigger] first_seen(v)[k]),
{
    lemma_first_seen(v);
    let order = first_seen(v);
    lemma_at_most(order);
    assert forall|i: int| 0 <= i < v.len() implies (#[trigger] local_indices(v)[i]) < order.len()
        && order[local_indices(v)[i] as int] == v[i] by {
        assert(order.contains(v[i]));
        let k = choose|k: int| 0 <= k < order.len() && order[k] == v[i];
        lemma_place(order, v[i], 0, k);
    }
}

/// Lists the vertices of a list, each where it comes first, and their places.
pub fn remap_indices(drawn: &Vec<u32>) -> (r: (Vec<u32>, Vec<u32>))
    ensures
        r.0@ == first_seen(drawn@),
        r.1@ == local_indices(drawn@),
{
    broadcast use vstd::std_specs::hash::group_hash_axioms;

    let ghost all = first_seen(drawn@);
    let mut places: HashMap<u32, u32> = HashMap::new();
    let mut order: Vec<u32> = Vec::new();
    let mut local: Vec<u32> = Vec::new();
    let mut i: usize = 0;
    proof {
        lemma_first_seen(drawn@);
        assert(drawn@.take(0).len() == 0);
        assert(all.take(0) =~= Seq::<u32>::empty());
    }
    while i < drawn.len()
        invariant
            i <= drawn@.len(),
            all == first_seen(drawn@),
            all_differ(all),
            order@ == first_seen(drawn@.take(i as int)),
            order@.len() <= all.len(),
            order@ == all.take(order@.len() as int),
            forall|x: u32| #[trigger] places@.contains_key(x) ==> order@.contains(x),
            forall|k: int|
                0 <= k < order@.len() ==> places@.contains_key(#[trigger] order@[k])
                    && places@[order@[k]] == k,
            local@.len() == i,
            forall|k: int| 0 <= k < i ==> #[trigger] local@[k] == place_in(all, drawn@[k], 0),
        decreases drawn@.len() - i,
    {
        broadcast use vstd::std_specs::hash::group_hash_axioms;

        let x: u32 = drawn[i];
        let ghost part = drawn@.take(i + 1);
        proof {
            assert(part.drop_last() =~= drawn@.take(i as int));
            assert(part.last() == x);
            lemma_prefix(drawn@, i + 1);
        }
        match places.get(&x) {
            Some(p) => {
                let p: u32 = *p;
                proof {
                    assert(order@.contains(x));
                    let k = choose|k: int| 0 <= k < order@.len() && order@[k] == x;
                    assert(places@[order@[k]] == k);
                    assert(all[k] == x);
                    lemma_place(all, x, 0, k);
                }
                local.push(p);
            },
            None => {
                proof {
                    assert(!order@.contains(x)) by {
                        if order@.contains(x) {
                            let k = choose|k: int| 0 <= k < order@.len() && order@[k] == x;
                            assert(places@.contains_key(order@[k]));
                        }
                    }
                    assert(first_seen(part) == order@.push(x));
                    assert(first_seen(part) == all.take(first_seen(part).len() as int));
                    assert(all[order@.len() as int] == x) by {
                        assert(first_seen(part)[order@.len() as int] == x);
                    }
                    lemma_at_most(all);
                    lemma_place(all, x, 0, order@.len() as int);
                }
                let p: u32 = order.len() as u32;
                let ghost before = order@;
                order.push(x);
                places.insert(x, p);
                proof {
                    assert forall|k: int| 0 <= k < order@.len() implies places@.contains_key(
                        #[trigger] order@[k],
                    ) && places@[order@[k]] == k by {
                        if k < before.len() {
                            assert(order@[k] == before[k]);
                            assert(places@.contains_key(before[k]));
                            assert(before.contains(before[k]));
                        }
                    }
                    assert forall|y: u32| #[trigger] places@.contains_key(y) implies order@.contains(
                        y,
                    ) by {
                        if y == x {
                            assert(order@[before.len() as int] == x);
                        } else {
                            assert(before.contains(y));
                            let k = choose|k: int| 0 <= k < before.len() && before[k] == y;
                            assert(order@[k] == y);
                        }
                    }
                }
                local.push(p);
            },
        }
        i += 1;
    }
    assert(drawn@.take(i as int) =~= drawn@);
    assert(local@ =~= local_indices(drawn@));
    (order, local)
}

/// The vertices kept of the start of a list are the start of those kept of the whole.
proof fn lemma_prefix(v: Seq<u32>, n: int)
    requires
        0 <= n <= v.len(),
    ensures
        first_seen(v.take(n)).len() <= first_seen(v).len(),
        first_seen(v.take(n)) == first_seen(v).take(first_seen(v.take(n)).len() as int),
    decreases v.len() - n,
{
    if n == v.len() {
        assert(v.take(n) =~= v);
        assert(first_seen(v).take(first_seen(v).len() as int) =~= first_seen(v));
    } else {
        lemma_prefix(v, n + 1);
        let longer = v.take(n + 1);
        assert(longer.drop_last() =~= v.take(n));
        let a = first_seen(v.take(n));
        let b = first_seen(longer);
        assert(a =~= b.take(a.len() as int));
        assert(b.take(a.len() as int) =~= first_seen(v).take(a.len() as int));
    }
}

/// What the vertices that are kept have in a list of all vertices.
pub open spec fn picked<T>(v: Seq<T>, order: Seq<u32>) -> Seq<T> {
    Seq::new(order.len(), |k: int| v[order[k] as int])
}

/// The first two components of each vertex that is kept.
pub open spec fn picked_pairs(values: Seq<Scalar>, n: int, order: Seq<u32>) -> Seq<(Scalar, Scalar)> {
    Seq::new(order.len(), |k: int| (values[order[k] * n], values[order[k] * n + 1]))
}

/// The first component of each vertex that is kept.
pub open spec fn picked_firsts(values: Seq<Scalar>, n: int, order: Seq<u32>) -> Seq<Scalar> {
    Seq::new(order.len(), |k: int| values[order[k] * n])
}

/// The geometry of a draw call: the vertices that it draws, each once, and a list of places among
/// them. Where a stream is missing every vertex has its default: a normal that points up, and
/// nought for everything else.
#[derive(Debug, Clone)]
pub struct DrawGeometry {
    pub indices: Vec<u32>,
    /// As the bits of singles.
    pub positions: Vec<[u32; 3]>,
    pub normals: Vec<Normal>,
    pub uv0: Vec<(Scalar, Scalar)>,
    /// The coordinates in the lightmap, where they are needed.
    pub uv1: Option<Vec<(Scalar, Scalar)>>,
    /// The weight of a second layer, where it is needed.
    pub blend: Option<Vec<Scalar>>,
}

/// A [`DrawGeometry`] as plain values.
pub struct GeometryView {
    pub indices: Seq<u32>,
    pub positions: Seq<Seq<u32>>,
    pub normals: Seq<NormalView>,
    pub uv0: Seq<(Scalar, Scalar)>,
    pub uv1: Option<Seq<(Scalar, Scalar)>>,
    pub blend: Option<Seq<Scalar>>,
}

/// An optional list as a sequence.
pub open spec fn opt_list<T>(v: Option<Vec<T>>) -> Option<Seq<T>> {
    match v {
        Some(v) => Some(v@),
        None => None,
    }
}

impl View for DrawGeometry {
    type V = GeometryView;

    open spec fn view(&self) -> GeometryView {
        GeometryView {
            indices: self.indices@,
            positions: crate::attributes::triples(self.positions@),
            normals: crate::attributes::normal_views(self.normals@),
            uv0: self.uv0@,
            uv1: opt_list(self.uv1),
            blend: opt_list(self.blend),
        }
    }
}

/// The normals of a draw call, where it has any.
pub open spec fn normals_at(mesh: MeshView, dc: DrawCallView) -> Result<
    Option<Seq<NormalView>>,
    Fault,
> {
    match stream_of(mesh, dc, "NORMAL"@, 0) {
        None => Ok(None),
        Some(s) => match crate::attributes::normals_of(mesh.vertex_buffers[s.0], s.1) {
            Ok(v) => Ok(Some(v)),
            Err(f) => Err(f),
        },
    }
}

/// The texture coordinates of a draw call, where they are needed and it has any.
pub open spec fn coords_at(mesh: MeshView, dc: DrawCallView, index: i32, needed: bool) -> Result<
    Option<(usize, Seq<Scalar>)>,
    Fault,
> {
    if !needed {
        Ok(None)
    } else {
        match stream_of(mesh, dc, "TEXCOORD"@, index) {
            None => Ok(None),
            Some(s) => match crate::attributes::attribute_of(
                mesh.vertex_buffers[s.0],
                s.1,
                "TEXCOORD"@,
            ) {
                Ok(v) => Ok(Some(v)),
                Err(f) => Err(f),
            },
        }
    }
}

/// The same for every vertex.
pub open spec fn repeated<T>(x: T, n: nat) -> Seq<T> {
    Seq::new(n, |i: int| x)
}

/// The normal of a vertex that has none: it points up.
pub open spec fn up() -> NormalView {
    NormalView::Plain(Seq::<u32>::empty().push(0).push(0).push(F32_ONE))
}

/// Nought.
pub open spec fn nought() -> Scalar {
    Scalar::Single(0)
}

/// The normals that are kept.
pub open spec fn normals_in(v: Option<Seq<NormalView>>, order: Seq<u32>) -> Seq<NormalView> {
    match v {
        Some(v) => picked(v, order),
        None => repeated(up(), order.len()),
    }
}

/// The pairs that are kept.
pub open spec fn pairs_in(v: Option<(usize, Seq<Scalar>)>, order: Seq<u32>) -> Seq<
    (Scalar, Scalar),
> {
    match v {
        Some(a) => picked_pairs(a.1, a.0 as int, order),
        None => repeated((nought(), nought()), order.len()),
    }
}

/// The first components that are kept.
pub open spec fn firsts_in(v: Option<(usize, Seq<Scalar>)>, order: Seq<u32>) -> Seq<Scalar> {
    match v {
        Some(a) => picked_firsts(a.1, a.0 as int, order),
        None => repeated(nought(), order.len()),
    }
}

/// The geometry of a draw call. A draw call without positions has none.
pub open spec fn geometry_of(mesh: MeshView, dc: DrawCallView, needs_uv1: bool, needs_blend: bool) -> Result<
    GeometryView,
    Fault,
> {
    match crate::mesh::drawn_vertices(dc, mesh) {
        Err(f) => Err(f),
        Ok(drawn) => match stream_of(mesh, dc, "POSITION"@, 0) {
            None => Err(Fault::Missing { path: "POSITION"@ }),
            Some(s) => match crate::attributes::positions_of(mesh.vertex_buffers[s.0], s.1) {
                Err(f) => Err(f),
                Ok(positions) => match normals_at(mesh, dc) {
                    Err(f) => Err(f),
                    Ok(normals) => match coords_at(mesh, dc, 0, true) {
                        Err(f) => Err(f),
                        Ok(uv0) => match coords_at(mesh, dc, 3, needs_uv1) {
                            Err(f) => Err(f),
                            Ok(uv1) => match coords_at(mesh, dc, 4, needs_blend) {
                                Err(f) => Err(f),
                                Ok(blend) => {
                                    let order = first_seen(drawn);
                                    Ok(
                                        GeometryView {
                                            indices: local_indices(drawn),
                                            positions: picked(positions, order),
                                            normals: normals_in(normals, order),
                                            uv0: pairs_in(uv0, order),
                                            uv1: if needs_uv1 {
                                                Some(pairs_in(uv1, order))
                                            } else {
                                                None
                                            },
                                            blend: if needs_blend {
                                                Some(firsts_in(blend, order))
                                            } else {
                                                None
                                            },
                                        },
                                    )
                                },
                            },
                        },
                    },
                },
            },
        },
    }
}

/// Whether the texture coordinates of a draw call, where it has any, have two components.
pub open spec fn are_pairs(mesh: MeshView, dc: DrawCallView, index: i32) -> bool {
    match stream_of(mesh, dc, "TEXCOORD"@, index) {
        Some(s) => match crate::attributes::components_of(s.1.format) {
            Some(k) => k.1 >= 2,
            None => true,
        },
        None => true,
    }
}

/// Whether the texture coordinates that are written of a draw call come in pairs, where its geometry
/// can be had and has vertices at all.
pub open spec fn is_paired(mesh: MeshView, dc: DrawCallView, needs_uv1: bool, needs_blend: bool) -> bool {
    geometry_of(mesh, dc, needs_uv1, needs_blend) is Ok && crate::mesh::drawn_vertices(
        dc,
        mesh,
    )->Ok_0.len() > 0 ==> are_pairs(mesh, dc, 0) && (needs_uv1 ==> are_pairs(mesh, dc, 3))
}

/// Whether the format of texture coordinates, where a draw call has any, has two components.
fn has_pairs(mesh: &Mesh, dc: &DrawCall, index: i32) -> (r: bool)
    ensures
        r == are_pairs(mesh@, dc@, index),
{
    match find_field(mesh, dc, "TEXCOORD", index) {
        Some((_, f)) => match crate::attributes::component_kind(f.format) {
            Some((_, n)) => n >= 2,
            None => true,
        },
        None => true,
    }
}

/// The geometry of a draw call holds what it draws: a place for each vertex of its list, where the
/// position of that vertex stands, no vertex twice, and for each vertex every attribute. It has
/// coordinates in the lightmap and weights where they are needed, and nowhere else.
pub proof fn geometry_holds_what_is_drawn(
    mesh: MeshView,
    dc: DrawCallView,
    needs_uv1: bool,
    needs_blend: bool,
)
    requires
        geometry_of(mesh, dc, needs_uv1, needs_blend) is Ok,
    ensures
        ({
            let g = geometry_of(mesh, dc, needs_uv1, needs_blend)->Ok_0;
            let drawn = crate::mesh::drawn_vertices(dc, mesh)->Ok_0;
            let s = stream_of(mesh, dc, "POSITION"@, 0)->Some_0;
            let all = crate::attributes::positions_of(mesh.vertex_buffers[s.0], s.1)->Ok_0;
            let n = g.positions.len();
            &&& g.indices.len() == drawn.len()
            &&& n == first_seen(drawn).len()
            &&& all_differ(first_seen(drawn))
            &&& forall|k: int|
                0 <= k < drawn.len() ==> (#[trigger] g.indices[k]) < n && g.positions[g.indices[k] as int]
                    == all[drawn[k] as int]
            &&& g.normals.len() == n
            &&& g.uv0.len() == n
            &&& g.uv1 is Some == needs_uv1
            &&& g.uv1 matches Some(v) ==> v.len() == n
            &&& g.blend is Some == needs_blend
            &&& g.blend matches Some(v) ==> v.len() == n
        }),
{
    let g = geometry_of(mesh, dc, needs_uv1, needs_blend)->Ok_0;
    let drawn = crate::mesh::drawn_vertices(dc, mesh)->Ok_0;
    places_hold_their_vertices(drawn);
    assert forall|k: int| 0 <= k < drawn.len() implies (#[trigger] g.indices[k]) < g.positions.len()
        && first_seen(drawn)[g.indices[k] as int] == drawn[k] by {
        assert(local_indices(drawn)[k] == g.indices[k]);
    }
}

/// The vertices that are kept stand in every buffer that has a stream of the draw call.
proof fn lemma_kept_vertices(
    mesh: MeshView,
    dc: DrawCallView,
    name: Seq<char>,
    index: i32,
    order: Seq<u32>,
)
    requires
        crate::mesh::drawn_vertices(dc, mesh) is Ok,
        order == first_seen(crate::mesh::drawn_vertices(dc, mesh)->Ok_0),
        stream_of(mesh, dc, name, index) is Some,
    ensures
        ({
            let s = stream_of(mesh, dc, name, index)->Some_0;
            &&& 0 <= s.0 < mesh.vertex_buffers.len()
            &&& forall|k: int|
                0 <= k < order.len() ==> (#[trigger] order[k])
                    < mesh.vertex_buffers[s.0].element_count
        }),
{
    let drawn = crate::mesh::drawn_vertices(dc, mesh)->Ok_0;
    let s = stream_of(mesh, dc, name, index)->Some_0;
    lemma_stream(mesh, dc.vertex_buffers, name, index, 0);
    lemma_first_seen(drawn);
    let j = choose|j: int|
        0 <= j < dc.vertex_buffers.len() && #[trigger] dc.vertex_buffers[j] == s.0;
    assert forall|k: int| 0 <= k < order.len() implies (#[trigger] order[k])
        < mesh.vertex_buffers[s.0].element_count by {
        assert(drawn.contains(order[k]));
        let i = choose|i: int| 0 <= i < drawn.len() && drawn[i] == order[k];
        crate::mesh::drawn_vertices_exist(dc, mesh, i, j);
    }
}

/// Picks the positions of the vertices that are kept.
fn pick_positions(v: &Vec<[u32; 3]>, order: &Vec<u32>) -> (r: Vec<[u32; 3]>)
    requires
        forall|k: int| 0 <= k < order@.len() ==> (#[trigger] order@[k]) < v@.len(),
    ensures
        crate::attributes::triples(r@) == picked(crate::attributes::triples(v@), order@),
{
    let mut out: Vec<[u32; 3]> = Vec::new();
    let mut i: usize = 0;
    while i < order.len()
        invariant
            i <= order@.len(),
            forall|k: int| 0 <= k < order@.len() ==> (#[trigger] order@[k]) < v@.len(),
            out@ =~= picked(v@, order@).take(i as int),
        decreases order@.len() - i,
    {
        out.push(v[order[i] as usize]);
        i += 1;
    }
    assert(crate::attributes::triples(out@) =~= picked(crate::attributes::triples(v@), order@));
    out
}

/// Picks the normals of the vertices that are kept.
fn pick_normals(v: &Vec<Normal>, order: &Vec<u32>) -> (r: Vec<Normal>)
    requires
        forall|k: int| 0 <= k < order@.len() ==> (#[trigger] order@[k]) < v@.len(),
    ensures
        crate::attributes::normal_views(r@) == picked(
            crate::attributes::normal_views(v@),
            order@,
        ),
{
    let mut out: Vec<Normal> = Vec::new();
    let mut i: usize = 0;
    while i < order.len()
        invariant
            i <= order@.len(),
            forall|k: int| 0 <= k < order@.len() ==> (#[trigger] order@[k]) < v@.len(),
            out@ =~= picked(v@, order@).take(i as int),
        decreases order@.len() - i,
    {
        out.push(v[order[i] as usize]);
        i += 1;
    }
    assert(crate::attributes::normal_views(out@) =~= picked(
        crate::attributes::normal_views(v@),
        order@,
    ));
    out
}

/// Picks the pairs of the vertices that are kept.
fn pick_pairs(a: &FloatAttribute, order: &Vec<u32>, count: u32) -> (r: Vec<(Scalar, Scalar)>)
    requires
        order@.len() > 0 ==> a.components >= 2,
        a.values@.len() == count * a.components,
        forall|k: int| 0 <= k < order@.len() ==> (#[trigger] order@[k]) < count,
    ensures
        r@ == picked_pairs(a.values@, a.components as int, order@),
{
    let mut out: Vec<(Scalar, Scalar)> = Vec::new();
    let ghost all = picked_pairs(a.values@, a.components as int, order@);
    let mut i: usize = 0;
    while i < order.len()
        invariant
            i <= order@.len(),
            order@.len() > 0 ==> a.components >= 2,
            a.values@.len() == count * a.components,
            forall|k: int| 0 <= k < order@.len() ==> (#[trigger] order@[k]) < count,
            all == picked_pairs(a.values@, a.components as int, order@),
            out@ =~= all.take(i as int),
        decreases order@.len() - i,
    {
        let v: u32 = order[i];
        let n: usize = a.components;
        assert((v + 1) * n <= count * n && v * n >= 0 && (v + 1) * n == v * n + n) by (
        nonlinear_arith)
            requires
                v < count,
        ;
        let row: &[Scalar] = a.get(v as usize);
        assert(row@[0] == a.values@[v * n]);
        assert(row@[1] == a.values@[v * n + 1]);
        out.push((row[0], row[1]));
        assert(all[i as int] == (row@[0], row@[1]));
        i += 1;
    }
    assert(all.take(i as int) =~= all);
    out
}

/// Picks the first components of the vertices that are kept.
fn pick_firsts(a: &FloatAttribute, order: &Vec<u32>, count: u32) -> (r: Vec<Scalar>)
    requires
        a.components >= 1,
        a.values@.len() == count * a.components,
        forall|k: int| 0 <= k < order@.len() ==> (#[trigger] order@[k]) < count,
    ensures
        r@ == picked_firsts(a.values@, a.components as int, order@),
{
    let mut out: Vec<Scalar> = Vec::new();
    let ghost all = picked_firsts(a.values@, a.components as int, order@);
    let mut i: usize = 0;
    while i < order.len()
        invariant
            i <= order@.len(),
            a.components >= 1,
            a.values@.len() == count * a.components,
            forall|k: int| 0 <= k < order@.len() ==> (#[trigger] order@[k]) < count,
            all == picked_firsts(a.values@, a.components as int, order@),
            out@ =~= all.take(i as int),
        decreases order@.len() - i,
    {
        let v: u32 = order[i];
        let n: usize = a.components;
        assert((v + 1) * n <= count * n && v * n >= 0 && (v + 1) * n == v * n + n) by (
        nonlinear_arith)
            requires
                v < count,
        ;
        let row: &[Scalar] = a.get(v as usize);
        assert(row@[0] == a.values@[v * n]);
        out.push(row[0]);
        assert(all[i as int] == row@[0]);
        i += 1;
    }
    assert(all.take(i as int) =~= all);
    out
}

/// Reads texture coordinates, where they are needed and there are any; with them the number of
/// vertices in their buffer.
fn read_coords(mesh: &Mesh, dc: &DrawCall, index: i32, needed: bool) -> (r: Result<
    Option<(FloatAttribute, u32)>,
    MeshError,
>)
    ensures
        match r {
            Err(e) => coords_at(mesh@, dc@, index, needed) == Err::<
                Option<(usize, Seq<Scalar>)>,
                Fault,
            >(crate::error::known(e@)),
            Ok(None) => coords_at(mesh@, dc@, index, needed) == Ok::<
                Option<(usize, Seq<Scalar>)>,
                Fault,
            >(None),
            Ok(Some(p)) => {
                let s = stream_of(mesh@, dc@, "TEXCOORD"@, index);
                &&& coords_at(mesh@, dc@, index, needed) == Ok::<
                    Option<(usize, Seq<Scalar>)>,
                    Fault,
                >(Some((p.0.components, p.0.values@)))
                &&& s is Some
                &&& p.1 == mesh@.vertex_buffers[s->Some_0.0].element_count
                &&& p.0.values@.len() == p.1 * p.0.components
                &&& p.0.components >= 1
                &&& crate::attributes::components_of(s->Some_0.1.format) is Some
                &&& p.0.components == crate::attributes::components_of(
                    s->Some_0.1.format,
                )->Some_0.1
            },
        },
{
    if !needed {
        return Ok(None);
    }
    match find_field(mesh, dc, "TEXCOORD", index) {
        None => Ok(None),
        Some((b, f)) => match decode_texcoord(b, f) {
            Err(e) => Err(e),
            Ok(a) => {
                proof {
                    let step_len = b.element_count;
                    if step_len > 0 {
                        crate::attributes::attribute_holds_every_vertex(b@, f@, "TEXCOORD"@, 0);
                    } else {
                        assert(crate::attributes::attribute_of(b@, f@, "TEXCOORD"@) is Ok);
                        let k = crate::attributes::components_of(f.format)->Some_0;
                        assert(0 * a.components == 0) by (nonlinear_arith);
                        crate::error::lemma_gathered(
                            crate::attributes::row_step(b@, f.offset, k.0, k.1, "TEXCOORD"@),
                            0,
                        );
                    }
                }
                Ok(Some((a, b.element_count)))
            },
        },
    }
}

/// What is read of a draw call before its vertices are picked.
struct Decoded {
    /// The vertices that are drawn, each once.
    order: Vec<u32>,
    indices: Vec<u32>,
    positions: Vec<[u32; 3]>,
    normals: Option<Vec<Normal>>,
    /// Texture coordinates, with the number of vertices in their buffer.
    uv0: Option<(FloatAttribute, u32)>,
    uv1: Option<(FloatAttribute, u32)>,
    blend: Option<(FloatAttribute, u32)>,
}

/// The values of texture coordinates.
spec fn coords_view(v: Option<(FloatAttribute, u32)>) -> Option<(usize, Seq<Scalar>)> {
    match v {
        Some(p) => Some((p.0.components, p.0.values@)),
        None => None,
    }
}

/// Whether texture coordinates have a value for each vertex that is kept, of as many components as
/// their format has.
spec fn coords_cover(
    v: Option<(FloatAttribute, u32)>,
    mesh: MeshView,
    dc: DrawCallView,
    index: i32,
    order: Seq<u32>,
) -> bool {
    v matches Some(p) ==> {
        &&& p.0.components >= 1
        &&& are_pairs(mesh, dc, index) ==> p.0.components >= 2
        &&& p.0.values@.len() == p.1 * p.0.components
        &&& forall|k: int| 0 <= k < order.len() ==> (#[trigger] order[k]) < p.1
    }
}

/// Whether this is what is read of a draw call.
spec fn is_decoded(
    d: Decoded,
    mesh: MeshView,
    dc: DrawCallView,
    needs_uv1: bool,
    needs_blend: bool,
) -> bool {
    let s = stream_of(mesh, dc, "POSITION"@, 0);
    &&& crate::mesh::drawn_vertices(dc, mesh) is Ok
    &&& d.order@ == first_seen(crate::mesh::drawn_vertices(dc, mesh)->Ok_0)
    &&& d.indices@ == local_indices(crate::mesh::drawn_vertices(dc, mesh)->Ok_0)
    &&& s is Some
    &&& crate::attributes::positions_of(mesh.vertex_buffers[s->Some_0.0], s->Some_0.1) == Ok::<
        Seq<Seq<u32>>,
        Fault,
    >(crate::attributes::triples(d.positions@))
    &&& normals_at(mesh, dc) == Ok::<Option<Seq<NormalView>>, Fault>(
        match d.normals {
            Some(v) => Some(crate::attributes::normal_views(v@)),
            None => None,
        },
    )
    &&& coords_at(mesh, dc, 0, true) == Ok::<Option<(usize, Seq<Scalar>)>, Fault>(
        coords_view(d.uv0),
    )
    &&& coords_at(mesh, dc, 3, needs_uv1) == Ok::<Option<(usize, Seq<Scalar>)>, Fault>(
        coords_view(d.uv1),
    )
    &&& coords_at(mesh, dc, 4, needs_blend) == Ok::<Option<(usize, Seq<Scalar>)>, Fault>(
        coords_view(d.blend),
    )
    &&& forall|k: int| 0 <= k < d.order@.len() ==> (#[trigger] d.order@[k]) < d.positions@.len()
    &&& d.normals matches Some(v) ==> forall|k: int|
        0 <= k < d.order@.len() ==> (#[trigger] d.order@[k]) < v@.len()
    &&& coords_cover(d.uv0, mesh, dc, 0, d.order@)
    &&& coords_cover(d.uv1, mesh, dc, 3, d.order@)
    &&& coords_cover(d.blend, mesh, dc, 4, d.order@)
}

/// Reads texture coordinates of a draw call whose vertices are known.
fn read_kept_coords(mesh: &Mesh, dc: &DrawCall, index: i32, needed: bool, order: &Vec<u32>) -> (r:
    Result<Option<(FloatAttribute, u32)>, MeshError>)
    requires
        crate::mesh::drawn_vertices(dc@, mesh@) is Ok,
        order@ == first_seen(crate::mesh::drawn_vertices(dc@, mesh@)->Ok_0),
    ensures
        match r {
            Err(e) => coords_at(mesh@, dc@, index, needed) == Err::<
                Option<(usize, Seq<Scalar>)>,
                Fault,
            >(crate::error::known(e@)),
            Ok(v) => coords_at(mesh@, dc@, index, needed) == Ok::<
                Option<(usize, Seq<Scalar>)>,
                Fault,
            >(coords_view(v)) && coords_cover(v, mesh@, dc@, index, order@),
        },
{
    let r: Result<Option<(FloatAttribute, u32)>, MeshError> = read_coords(mesh, dc, index, needed);
    proof {
        if r is Ok && r->Ok_0 is Some {
            lemma_kept_vertices(mesh@, dc@, "TEXCOORD"@, index, order@);
        }
    }
    r
}

/// Reads a draw call.
fn decode_parts(mesh: &Mesh, dc: &DrawCall, needs_uv1: bool, needs_blend: bool) -> (r: Result<
    Decoded,
    MeshError,
>)
    ensures
        match r {
            Err(e) => geometry_of(mesh@, dc@, needs_uv1, needs_blend) == Err::<GeometryView, Fault>(
                crate::error::known(e@),
            ),
            Ok(d) => is_decoded(d, mesh@, dc@, needs_uv1, needs_blend),
        },
{
    let drawn: Vec<u32> = match dc.resolve_indices(mesh) {
        Ok(v) => v,
        Err(e) => {
            return Err(e);
        },
    };
    let (order, indices) = remap_indices(&drawn);
    let (pos_buffer, pos_field) = match find_field(mesh, dc, "POSITION", 0) {
        Some(p) => p,
        None => {
            return Err(MeshError::Missing { path: "POSITION".to_owned() });
        },
    };
    let positions: Vec<[u32; 3]> = match decode_positions(pos_buffer, pos_field) {
        Ok(v) => v,
        Err(e) => {
            return Err(e);
        },
    };
    proof {
        lemma_kept_vertices(mesh@, dc@, "POSITION"@, 0, order@);
        crate::error::lemma_gathered(
            crate::attributes::position_step(pos_buffer@, pos_field.offset),
            pos_buffer.element_count as nat,
        );
    }
    let normals: Option<Vec<Normal>> = match find_field(mesh, dc, "NORMAL", 0) {
        Some((b, f)) => match decode_normals(b, f) {
            Ok(v) => {
                proof {
                    lemma_kept_vertices(mesh@, dc@, "NORMAL"@, 0, order@);
                    crate::error::lemma_gathered(
                        crate::attributes::normal_step(
                            b@,
                            f.offset,
                            f.format,
                            crate::attributes::normal_len(f.format)->Some_0,
                        ),
                        b.element_count as nat,
                    );
                }
                Some(v)
            },
            Err(e) => {
                return Err(e);
            },
        },
        None => None,
    };
    let uv0: Option<(FloatAttribute, u32)> = match read_kept_coords(mesh, dc, 0, true, &order) {
        Ok(v) => v,
        Err(e) => {
            return Err(e);
        },
    };
    let uv1: Option<(FloatAttribute, u32)> = match read_kept_coords(mesh, dc, 3, needs_uv1, &order) {
        Ok(v) => v,
        Err(e) => {
            return Err(e);
        },
    };
    let blend: Option<(FloatAttribute, u32)> = match read_kept_coords(
        mesh,
        dc,
        4,
        needs_blend,
        &order,
    ) {
        Ok(v) => v,
        Err(e) => {
            return Err(e);
        },
    };
    Ok(Decoded { order, indices, positions, normals, uv0, uv1, blend })
}

/// Whether the texture coordinates that are written of a draw call come in pairs, where its geometry
/// can be had and has vertices at all.
pub fn coordinates_are_pairs(mesh: &Mesh, dc: &DrawCall, needs_uv1: bool, needs_blend: bool) -> (r:
    bool)
    ensures
        r == is_paired(mesh@, dc@, needs_uv1, needs_blend),
{
    if has_pairs(mesh, dc, 0) && (!needs_uv1 || has_pairs(mesh, dc, 3)) {
        return true;
    }
    match decode_parts(mesh, dc, needs_uv1, needs_blend) {
        Ok(d) => {
            proof {
                places_hold_their_vertices(crate::mesh::drawn_vertices(dc@, mesh@)->Ok_0);
                let drawn = crate::mesh::drawn_vertices(dc@, mesh@)->Ok_0;
                if drawn.len() > 0 {
                    assert(local_indices(drawn)[0] < first_seen(drawn).len());
                } else {
                    assert(first_seen(drawn).len() == 0);
                }
            }
            d.order.len() == 0
        },
        Err(_) => true,
    }
}

/// The same for every vertex.
fn repeat<T: Copy>(x: T, n: usize) -> (r: Vec<T>)
    ensures
        r@ == repeated(x, n as nat),
{
    let mut out: Vec<T> = Vec::new();
    let mut i: usize = 0;
    while i < n
        invariant
            i <= n,
            out@ =~= repeated(x, i as nat),
        decreases n - i,
    {
        out.push(x);
        i += 1;
    }
    out
}

/// Picks the pairs of the vertices that are kept; where there are none, they are nought.
fn kept_pairs(v: &Option<(FloatAttribute, u32)>, order: &Vec<u32>) -> (r: Vec<(Scalar, Scalar)>)
    requires
        v matches Some(p) ==> {
            &&& order@.len() > 0 ==> p.0.components >= 2
            &&& p.0.values@.len() == p.1 * p.0.components
            &&& forall|k: int| 0 <= k < order@.len() ==> (#[trigger] order@[k]) < p.1
        },
    ensures
        r@ == pairs_in(coords_view(*v), order@),
{
    match v {
        Some((a, count)) => pick_pairs(a, order, *count),
        None => repeat((Scalar::Single(0), Scalar::Single(0)), order.len()),
    }
}

/// Decodes the geometry of a draw call: the vertices that it draws, each once, in the order in
/// which they come first.
pub fn decode_geometry(mesh: &Mesh, dc: &DrawCall, needs_uv1: bool, needs_blend: bool) -> (r: Result<
    DrawGeometry,
    MeshError,
>)
    requires
        is_paired(mesh@, dc@, needs_uv1, needs_blend),
    ensures
        crate::error::outcome(r) == geometry_of(mesh@, dc@, needs_uv1, needs_blend),
{
    let d: Decoded = match decode_parts(mesh, dc, needs_uv1, needs_blend) {
        Ok(d) => d,
        Err(e) => {
            return Err(e);
        },
    };
    let order: &Vec<u32> = &d.order;
    proof {
        let drawn = crate::mesh::drawn_vertices(dc@, mesh@)->Ok_0;
        if order@.len() > 0 {
            places_hold_their_vertices(drawn);
            assert(drawn.contains(first_seen(drawn)[0]));
        }
    }
    let normals: Vec<Normal> = match &d.normals {
        Some(v) => pick_normals(v, order),
        None => {
            let flat: Normal = Normal::Plain([0u32, 0u32, F32_ONE]);
            let r: Vec<Normal> = repeat(flat, order.len());
            proof {
                assert([0u32, 0u32, F32_ONE]@ =~= Seq::<u32>::empty().push(0).push(0).push(F32_ONE));
                assert(flat@ == up());
                assert(crate::attributes::normal_views(r@) =~= repeated(up(), order@.len()));
            }
            r
        },
    };
    let uv0: Vec<(Scalar, Scalar)> = kept_pairs(&d.uv0, order);
    let uv1: Option<Vec<(Scalar, Scalar)>> = if needs_uv1 {
        Some(kept_pairs(&d.uv1, order))
    } else {
        None
    };
    let blend: Option<Vec<Scalar>> = if needs_blend {
        Some(
            match &d.blend {
                Some((a, count)) => pick_firsts(a, order, *count),
                None => repeat(Scalar::Single(0), order.len()),
            },
        )
    } else {
        None
    };
    let positions: Vec<[u32; 3]> = pick_positions(&d.positions, order);
    Ok(DrawGeometry { indices: d.indices, positions, normals, uv0, uv1, blend })
}

/// The geometry of a draw call as it is written: with the numbers rounded to what the streams hold.
#[derive(Debug)]
pub struct Streams {
    /// As the bits of singles.
    pub positions: Vec<[u32; 3]>,
    /// The positions in steps of the grid that all meshes share.
    pub grid: Vec<[i64; 3]>,
    /// The step at the middle of the positions.
    pub center: (i64, i64, i64),
    /// The bounds of the positions, as the bits of singles.
    pub min: (u32, u32, u32),
    pub max: (u32, u32, u32),
    /// In 127ths.
    pub normals: Vec<[i8; 3]>,
    /// As the bits of singles.
    pub uv0: Vec<[u32; 2]>,
    /// The same in 65535ths.
    pub uv0_quantized: Vec<[u16; 2]>,
    /// The coordinates in the lightmap, in 65535ths.
    pub uv1: Option<Vec<[u16; 2]>>,
    /// As the bits of singles.
    pub blend: Option<Vec<u32>>,
}

/// The accessors of a geometry.
#[derive(Debug, Clone, Copy, PartialEq, Eq, Structural)]
pub struct BuiltGeometry {
    pub position: u32,
    /// Whether the positions were written in steps from the centre.
    pub on_grid: bool,
    pub normal: u32,
    pub uv0: u32,
    pub uv1: Option<u32>,
    pub blend: Option<u32>,
    pub indices: u32,
    pub triangles: u64,
}

/// Whether streams are those of a geometry: they have one value for each of its vertices, each of
/// its places is that of a vertex, and only the vertices of an overlay were moved.
pub open spec fn are_of(s: Streams, g: GeometryView, overlay: bool) -> bool {
    let n = g.positions.len();
    &&& s.positions@.len() == n
    &&& s.grid@.len() == n
    &&& s.normals@.len() == n
    &&& s.uv0@.len() == n
    &&& s.uv0_quantized@.len() == n
    &&& s.uv1 is Some == g.uv1 is Some
    &&& s.uv1 matches Some(v) ==> v@.len() == n
    &&& s.blend is Some == g.blend is Some
    &&& s.blend matches Some(v) ==> v@.len() == n
    &&& forall|i: int| 0 <= i < g.indices.len() ==> #[trigger] g.indices[i] < n
    &&& !overlay ==> crate::attributes::triples(s.positions@) == g.positions
}

/// Whether a document can take a geometry.
pub open spec fn can_take_streams(b: BuilderView, indices: Seq<u32>, s: Streams) -> bool {
    let n = s.positions@.len() as int;
    let m = indices.len() as int;
    &&& crate::gltf::has_space(b)
    &&& b.buffer_views.len() + 6 < u32::MAX
    &&& b.accessors.len() + 6 < u32::MAX
    &&& 12 * n <= isize::MAX / 4
    &&& 4 * m <= isize::MAX / 4
    &&& b.fallback_bytes + 32 * n + 4 * m + 18 <= usize::MAX
}

/// A document with normals more.
pub open spec fn with_normals(b: BuilderView, normals: Seq<[i8; 3]>) -> BuilderView {
    crate::gltf::with_quantization(
        crate::gltf::with_attribute(
            b,
            crate::gltf::normal_bytes(normals),
            normals.len() as int,
            4,
            crate::gltf::COMPONENT_TYPE_BYTE,
            crate::gltf::Shape::Vec3,
            true,
            None,
        ),
    )
}

/// A document with pairs in 65535ths more.
pub open spec fn with_uv_words(b: BuilderView, words: Seq<[u16; 2]>) -> BuilderView {
    crate::gltf::with_attribute(
        b,
        crate::bytes::all_bytes16(crate::gltf::rows16(words)),
        words.len() as int,
        4,
        crate::gltf::COMPONENT_TYPE_UNSIGNED_SHORT,
        crate::gltf::Shape::Vec2,
        true,
        None,
    )
}

/// A document with texture coordinates more.
pub open spec fn with_uv0(b: BuilderView, uv: Seq<[u32; 2]>, quantized: Seq<[u16; 2]>) -> BuilderView {
    if crate::gltf::all_in_unit(uv) {
        with_uv_words(b, quantized)
    } else {
        crate::gltf::with_attribute(
            b,
            crate::bytes::all_bytes32(crate::gltf::rows32(uv)),
            uv.len() as int,
            8,
            crate::gltf::COMPONENT_TYPE_FLOAT,
            crate::gltf::Shape::Vec2,
            false,
            None,
        )
    }
}

/// A document with the weights of a second layer more.
pub open spec fn with_blend(b: BuilderView, weights: Seq<u32>) -> BuilderView {
    crate::gltf::with_attribute(
        b,
        crate::bytes::all_bytes32(crate::gltf::clamped(weights)),
        weights.len() as int,
        4,
        crate::gltf::COMPONENT_TYPE_FLOAT,
        crate::gltf::Shape::Scalar,
        false,
        None,
    )
}

/// A document with the attributes that every geometry has.
pub open spec fn with_basics(b: BuilderView, s: Streams) -> BuilderView {
    with_uv0(
        with_normals(
            crate::gltf::with_positions(b, s.positions@, s.grid@, s.center, s.min, s.max),
            s.normals@,
        ),
        s.uv0@,
        s.uv0_quantized@,
    )
}

/// A document with a geometry more.
pub open spec fn with_geometry(b: BuilderView, indices: Seq<u32>, s: Streams) -> BuilderView {
    let b = with_basics(b, s);
    let b = match s.uv1 {
        Some(v) => with_uv_words(b, v@),
        None => b,
    };
    let b = match s.blend {
        Some(v) => with_blend(b, v@),
        None => b,
    };
    crate::gltf::with_indices(b, indices)
}

/// The accessors of a geometry, by the order in which they are written.
pub open spec fn built_geometry(b: BuilderView, indices: Seq<u32>, s: Streams) -> BuiltGeometry {
    let first = b.accessors.len() as int;
    let after_uv1 = if s.uv1 is Some {
        first + 4
    } else {
        first + 3
    };
    let after_blend = if s.blend is Some {
        after_uv1 + 1
    } else {
        after_uv1
    };
    BuiltGeometry {
        position: first as u32,
        on_grid: crate::gltf::on_grid(s.grid@, s.center),
        normal: (first + 1) as u32,
        uv0: (first + 2) as u32,
        uv1: if s.uv1 is Some {
            Some((first + 3) as u32)
        } else {
            None
        },
        blend: if s.blend is Some {
            Some(after_uv1 as u32)
        } else {
            None
        },
        indices: after_blend as u32,
        triangles: (indices.len() / 3) as u64,
    }
}

/// How much the attributes that every geometry has take up.
proof fn lemma_basics(b: BuilderView, g: GeometryView, s: Streams, overlay: bool)
    requires
        are_of(s, g, overlay),
        can_take_streams(b, g.indices, s),
    ensures
        ({
            let after = with_basics(b, s);
            let n = s.positions@.len() as int;
            &&& after.accessors.len() == b.accessors.len() + 3
            &&& after.buffer_views.len() == b.buffer_views.len() + 3
            &&& after.fallback_bytes <= b.fallback_bytes + 24 * n + 9
            &&& after.images == b.images
            &&& after.textures == b.textures
            &&& after.materials == b.materials
            &&& after.meshes == b.meshes
            &&& after.nodes == b.nodes
        }),
{
}

/// A mesh refers only to vertices that it has: the accessor of each of its attributes counts its
/// vertices, that of its indices their number, and each index is less than the vertices' number.
pub proof fn a_mesh_has_its_vertices(b: BuilderView, g: GeometryView, s: Streams, overlay: bool)
    requires
        are_of(s, g, overlay),
        can_take_streams(b, g.indices, s),
    ensures
        ({
            let a = with_geometry(b, g.indices, s).accessors;
            let built = built_geometry(b, g.indices, s);
            let n = g.positions.len();
            &&& a[built.position as int].count == n
            &&& a[built.normal as int].count == n
            &&& a[built.uv0 as int].count == n
            &&& built.uv1 matches Some(i) ==> a[i as int].count == n
            &&& built.blend matches Some(i) ==> a[i as int].count == n
            &&& a[built.indices as int].count == g.indices.len()
            &&& forall|k: int|
                0 <= k < g.indices.len() ==> #[trigger] g.indices[k] < a[built.position as int].count
            &&& built.triangles == g.indices.len() / 3
        }),
{
    lemma_basics(b, g, s, overlay);
}

/// Whether every index is less than a number.
fn all_below(indices: &Vec<u32>, n: usize) -> (r: bool)
    ensures
        r == (forall|k: int| 0 <= k < indices@.len() ==> #[trigger] indices@[k] < n),
{
    let mut i: usize = 0;
    while i < indices.len()
        invariant
            i <= indices@.len(),
            forall|k: int| 0 <= k < i ==> #[trigger] indices@[k] < n,
        decreases indices@.len() - i,
    {
        if indices[i] as u64 >= n as u64 {
            assert(indices@[i as int] >= n);
            return false;
        }
        i += 1;
    }
    true
}

/// Whether an optional stream is there as it should be, with so many values.
fn is_as_long<T, U>(v: &Option<Vec<T>>, wanted: &Option<Vec<U>>, n: usize) -> (r: bool)
    ensures
        r == (v is Some == wanted is Some && (v matches Some(list) ==> list@.len() == n)),
{
    match (v, wanted) {
        (Some(list), Some(_)) => list.len() == n,
        (None, None) => true,
        _ => false,
    }
}

/// Whether streams are those of a geometry.
#[verifier::spinoff_prover]
fn are_even(g: &DrawGeometry, s: &Streams, overlay: bool) -> (r: bool)
    ensures
        r == are_of(*s, g@, overlay),
{
    let n: usize = g.positions.len();
    let counted: bool = s.positions.len() == n && s.grid.len() == n && s.normals.len() == n
        && s.uv0.len() == n && s.uv0_quantized.len() == n;
    let low: bool = all_below(&g.indices, n);
    let uv1_even: bool = is_as_long(&s.uv1, &g.uv1, n);
    let blend_even: bool = is_as_long(&s.blend, &g.blend, n);
    let in_place: bool = overlay || same_positions(&s.positions, &g.positions);
    proof {
        assert(g@.positions.len() == n);
        assert(g@.indices == g.indices@);
        if are_of(*s, g@, overlay) {
            assert forall|k: int| 0 <= k < g.indices@.len() implies #[trigger] g.indices@[k] < n by {
                assert(g@.indices[k] < g@.positions.len());
            }
        }
        if low {
            assert forall|k: int| 0 <= k < g@.indices.len() implies #[trigger] g@.indices[k]
                < g@.positions.len() by {
                assert(g.indices@[k] < n);
            }
        }
    }
    counted && low && uv1_even && blend_even && in_place
}

/// Whether streams are those of a geometry, and a document can take them.
pub fn fits(builder: &GltfBuilder, g: &DrawGeometry, s: &Streams, overlay: bool) -> (r: bool)
    ensures
        r == (are_of(*s, g@, overlay) && can_take_streams(builder@, g.indices@, *s)),
{
    let m: u128 = g.indices.len() as u128;
    let quarter: u128 = (isize::MAX as usize / 4) as u128;
    let count: u128 = s.positions.len() as u128;
    let takes: bool = builder.has_space() && builder.buffer_view_count() as u128 + 6
        < u32::MAX as u128 && builder.accessor_count() as u128 + 6 < u32::MAX as u128 && 12 * count
        <= quarter && 4 * m <= quarter && builder.fallback_len() as u128 + 32 * count + 4 * m + 18
        <= usize::MAX as u128;
    takes && are_even(g, s, overlay)
}

/// Whether two lists of positions are the same.
fn same_positions(a: &Vec<[u32; 3]>, b: &Vec<[u32; 3]>) -> (r: bool)
    ensures
        r == (crate::attributes::triples(a@) == crate::attributes::triples(b@)),
{
    let ghost x = crate::attributes::triples(a@);
    let ghost y = crate::attributes::triples(b@);
    if a.len() != b.len() {
        assert(x.len() != y.len());
        return false;
    }
    let mut i: usize = 0;
    while i < a.len()
        invariant
            i <= a@.len(),
            a@.len() == b@.len(),
            x == crate::attributes::triples(a@),
            y == crate::attributes::triples(b@),
            forall|k: int| 0 <= k < i ==> #[trigger] x[k] == y[k],
        decreases a@.len() - i,
    {
        let p: [u32; 3] = a[i];
        let q: [u32; 3] = b[i];
        let equal: bool = p[0] == q[0] && p[1] == q[1] && p[2] == q[2];
        assert(equal == (p@ =~= q@));
        assert(x[i as int] == p@ && y[i as int] == q@);
        if !equal {
            return false;
        }
        i += 1;
    }
    assert(x =~= y);
    true
}

/// Writes a geometry.
pub fn add_geometry(builder: &mut GltfBuilder, g: &DrawGeometry, s: &Streams, overlay: bool) -> (r:
    BuiltGeometry)
    requires
        crate::gltf::sound(old(builder)@),
        are_of(*s, g@, overlay),
        can_take_streams(old(builder)@, g.indices@, *s),
    ensures
        final(builder)@ == with_geometry(old(builder)@, g.indices@, *s),
        r == built_geometry(old(builder)@, g.indices@, *s),
        crate::gltf::sound(final(builder)@),
{
    let ghost before = builder@;
    let (position, on_grid) = builder.add_positions(
        &s.positions,
        &s.grid,
        s.center,
        s.min,
        s.max,
    );
    let normal: u32 = builder.add_normals_quantized(&s.normals);
    let uv0: u32 = builder.add_uv0(&s.uv0, &s.uv0_quantized);
    proof {
        lemma_basics(before, g@, *s, overlay);
        assert(builder@ == with_basics(before, *s));
    }
    let uv1: Option<u32> = match &s.uv1 {
        Some(v) => Some(builder.add_uv1_u16(v)),
        None => None,
    };
    let blend: Option<u32> = match &s.blend {
        Some(v) => Some(builder.add_blend_f32(v)),
        None => None,
    };
    proof {
        assert forall|i: int| 0 <= i < g.indices@.len() implies #[trigger] g.indices@[i]
            < usize::MAX by {
            assert(g@.indices[i] < g@.positions.len());
            assert(g@.positions.len() == g.positions@.len());
        }
    }
    let indices: u32 = builder.add_indices(&g.indices);
    BuiltGeometry {
        position,
        on_grid,
        normal,
        uv0,
        uv1,
        blend,
        indices,
        triangles: (g.indices.len() / 3) as u64,
    }
}

/// A number, as a document.
pub open spec fn number(n: u32) -> crate::json::JsonView {
    crate::json::JsonView::UInt(n as u64)
}

/// An optional number.
pub open spec fn opt_number(n: Option<u32>) -> Option<crate::json::JsonView> {
    match n {
        Some(n) => Some(number(n)),
        None => None,
    }
}

/// A mesh, as a document: one primitive. `lpv` is the accessor of its baked light.
pub open spec fn mesh_json(g: BuiltGeometry, lpv: Option<u32>, material: u32, lighting: LightingClass)
    -> crate::json::JsonView {
    let attributes = crate::json::empty().push(("POSITION"@, number(g.position))).push(
        ("NORMAL"@, number(g.normal)),
    ).push(("TEXCOORD_0"@, number(g.uv0)));
    let attributes = crate::gltf::also(attributes, "TEXCOORD_1"@, opt_number(g.uv1));
    let attributes = crate::gltf::also(attributes, "_BLEND"@, opt_number(g.blend));
    let attributes = crate::gltf::also(attributes, "_LPV"@, opt_number(lpv));
    let extras = crate::json::empty().push(
        ("lighting"@, crate::json::JsonView::Str(crate::report::lighting_name(lighting))),
    );
    let primitive = crate::json::JsonView::Object(
        crate::json::empty().push(("attributes"@, crate::json::JsonView::Object(attributes))).push(
            ("indices"@, number(g.indices)),
        ).push(("material"@, number(material))).push(
            ("extras"@, crate::json::JsonView::Object(extras)),
        ),
    );
    crate::json::JsonView::Object(
        crate::json::empty().push(
            (
                "primitives"@,
                crate::json::JsonView::Array(Seq::<crate::json::JsonView>::empty().push(primitive)),
            ),
        ),
    )
}

/// Puts an optional number.
fn put_number(m: &mut Members, key: &str, n: Option<u32>)
    ensures
        final(m)@ == crate::gltf::also(old(m)@, key@, opt_number(n)),
{
    match n {
        Some(n) => {
            m.put_uint(key, n as u64);
        },
        None => {},
    }
}

/// A mesh, as a document.
pub fn write_mesh(g: &BuiltGeometry, lpv: Option<u32>, material: u32, lighting: LightingClass) -> (r:
    Json)
    ensures
        r@ == mesh_json(*g, lpv, material, lighting),
{
    let mut attributes: Members = Members::new();
    attributes.put_uint("POSITION", g.position as u64);
    attributes.put_uint("NORMAL", g.normal as u64);
    attributes.put_uint("TEXCOORD_0", g.uv0 as u64);
    put_number(&mut attributes, "TEXCOORD_1", g.uv1);
    put_number(&mut attributes, "_BLEND", g.blend);
    put_number(&mut attributes, "_LPV", lpv);
    let mut extras: Members = Members::new();
    extras.put_text("lighting", lighting.as_str());
    let mut primitive: Members = Members::new();
    primitive.put_object("attributes", attributes);
    primitive.put_uint("indices", g.indices as u64);
    primitive.put_uint("material", material as u64);
    primitive.put_object("extras", extras);
    let mut primitives: Vec<Json> = Vec::new();
    assert(crate::json::json_views(primitives@) =~= Seq::<crate::json::JsonView>::empty());
    crate::json::add_item(&mut primitives, primitive.object());
    let mut m: Members = Members::new();
    m.put_array("primitives", primitives);
    m.object()
}

} // verus!
