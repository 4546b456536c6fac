//! What is placed in a scene and drawn of it, and what another map's sky brings.

use crate::entity::Entity;
use crate::export::{CtxView, DrawStep, MaterialView, MeshStep, ProbeView, SharedView};
use crate::json::JsonView;
use crate::mesh::DrawCallView;
use crate::model::ModelView;
use crate::place::{FragmentDrawView, MeshAtView};
use crate::report::LightingClass;
use vstd::prelude::*;

verus! {

/// Draw calls are numbered object by object.
pub proof fn draw_calls_are_numbered_in_order(
    a: Seq<Seq<DrawCallView>>,
    b: Seq<Seq<DrawCallView>>,
)
    ensures
        crate::place::flat_calls(a + b) == crate::place::flat_calls(a) + crate::place::flat_calls(b),
        a.len() == 1 ==> crate::place::flat_calls(a) == a[0],
    decreases b.len(),
{
    if b.len() == 0 {
        assert(a + b =~= a);
        assert(crate::place::flat_calls(a) =~= crate::place::flat_calls(a)
            + crate::place::flat_calls(b));
    } else {
        draw_calls_are_numbered_in_order(a, b.drop_last());
        assert((a + b).drop_last() =~= a + b.drop_last());
        assert(crate::place::flat_calls(a + b) =~= crate::place::flat_calls(a)
            + crate::place::flat_calls(b));
    }
    if a.len() == 1 {
        assert(crate::place::flat_calls(a.drop_last()) =~= Seq::<DrawCallView>::empty());
        assert(crate::place::flat_calls(a) =~= a[0]);
    }
}

/// Of draw calls those are drawn that are triangles and have a material, in order, each under its number
/// and with the material that a skin gives it, else its own.
pub proof fn triangles_with_a_material_are_drawn(
    calls: Seq<DrawCallView>,
    dc: DrawCallView,
    skin: Option<Map<Seq<char>, String>>,
)
    requires
        calls.len() < usize::MAX,
    ensures
        ({
            let before = crate::place::draws_of(calls, skin);
            let after = crate::place::draws_of(calls.push(dc), skin);
            &&& dc.is_triangle_list && dc.material_path is Some ==> {
                let m = dc.material_path->Some_0;
                &&& after.len() == before.len() + 1
                &&& after.drop_last() == before
                &&& after.last().index == calls.len()
                &&& after.last().material == if skin is Some && skin->Some_0.contains_key(m) {
                    skin->Some_0[m]@
                } else {
                    m
                }
            }
            &&& !dc.is_triangle_list || dc.material_path is None ==> after == before
        }),
        crate::place::draws_of(Seq::empty(), skin).len() == 0,
{
    assert(calls.push(dc).drop_last() =~= calls);
    let before = crate::place::draws_of(calls, skin);
    let after = crate::place::draws_of(calls.push(dc), skin);
    if dc.is_triangle_list && dc.material_path is Some {
        assert(after.drop_last() =~= before);
    }
}

/// An overlay is drawn in its order where it has one.
pub proof fn overlays_are_drawn_in_their_order(overlay: bool, order: i64)
    ensures
        overlay && order != 0 ==> crate::place::order_of(overlay, order) == Some(order),
        !overlay || order == 0 ==> crate::place::order_of(overlay, order) is None,
{
}

/// Of a model the meshes of its finest level are drawn: first those that it holds, then those that it
/// refers to, each in order and under a key of its own.
pub proof fn meshes_of_the_finest_level_are_drawn(path: Seq<char>, model: ModelView, n: int)
    requires
        0 <= n <= usize::MAX,
    ensures
        n < model.embedded_meshes.len() ==> {
            let before = crate::place::embedded_picks(path, model, n);
            let after = crate::place::embedded_picks(path, model, n + 1);
            let m = model.embedded_meshes[n];
            if crate::model::in_level(
                model.lod.mesh_lod_masks,
                m.mesh_index as int,
                model.lod.lowest_level as int,
            ) {
                &&& after.len() == before.len() + 1
                &&& after.take(before.len() as int) == before
                &&& after.last().at == MeshAtView::Embedded(n as usize)
                &&& after.last().key == path + "#embedded"@ + crate::text::decimal_text(
                    m.mesh_index as int,
                )
            } else {
                after == before
            }
        },
        n < model.ref_meshes.len() ==> {
            let before = crate::place::ref_picks(path, model, n);
            let after = crate::place::ref_picks(path, model, n + 1);
            let m = model.ref_meshes[n];
            if crate::model::in_level(
                model.lod.mesh_lod_masks,
                m.mesh_index as int,
                model.lod.lowest_level as int,
            ) {
                &&& after.len() == before.len() + 1
                &&& after.take(before.len() as int) == before
                &&& after.last().at == MeshAtView::Resource(crate::source::compiled(m.mesh_path))
                &&& after.last().key == path + "#ref"@ + crate::text::decimal_text(
                    m.mesh_index as int,
                ) + ":"@ + crate::source::compiled(m.mesh_path)
            } else {
                after == before
            }
        },
        crate::place::embedded_picks(path, model, 0).len() == 0,
        crate::place::ref_picks(path, model, 0).len() == 0,
        crate::place::picks_of(path, model) == crate::place::embedded_picks(
            path,
            model,
            model.embedded_meshes.len() as int,
        ) + crate::place::ref_picks(path, model, model.ref_meshes.len() as int),
{
    if n < model.embedded_meshes.len() {
        let before = crate::place::embedded_picks(path, model, n);
        let after = crate::place::embedded_picks(path, model, n + 1);
        assert(after.take(before.len() as int) =~= before);
    }
    if n < model.ref_meshes.len() {
        let before = crate::place::ref_picks(path, model, n);
        let after = crate::place::ref_picks(path, model, n + 1);
        assert(after.take(before.len() as int) =~= before);
    }
}

/// The mesh of an aggregate is the first that its model holds, else the first that it refers to.
pub proof fn an_aggregate_has_the_first_mesh(model: ModelView)
    ensures
        model.embedded_meshes.len() > 0 ==> crate::place::aggregate_mesh_of(model) == Some(
            MeshAtView::Embedded(0),
        ),
        model.embedded_meshes.len() == 0 && model.ref_meshes.len() > 0
            ==> crate::place::aggregate_mesh_of(model) == Some(
            MeshAtView::Resource(crate::source::compiled(model.ref_meshes[0].mesh_path)),
        ),
        model.embedded_meshes.len() == 0 && model.ref_meshes.len() == 0
            ==> crate::place::aggregate_mesh_of(model) is None,
{
}

/// A fragment is drawn with the material of its draw call; one that is no triangles or has no material is
/// skipped, and one that is not there is told of.
pub proof fn a_fragment_is_drawn_with_its_material(
    calls: Seq<DrawCallView>,
    index: int,
    path: Seq<char>,
)
    requires
        0 <= index,
    ensures
        ({
            let r = crate::place::fragment_draw_of(calls, index, path);
            &&& index >= calls.len() ==> r is Missing
            &&& index < calls.len() && calls[index].is_triangle_list
                && calls[index].material_path is Some ==> r == FragmentDrawView::Drawn(
                calls[index].material_path->Some_0,
            )
            &&& index < calls.len() && (!calls[index].is_triangle_list
                || calls[index].material_path is None) ==> r == FragmentDrawView::Skipped
        }),
{
}

/// A triangle is three indices; what is left over makes none.
pub proof fn a_triangle_is_three_indices(count: i64)
    ensures
        count > 0 ==> 3 * crate::export::triangles_of(count) <= count < 3
            * crate::export::triangles_of(count) + 3,
        count <= 0 ==> crate::export::triangles_of(count) == 0,
{
}

/// Triangles are counted one draw after the other.
pub proof fn triangles_are_counted_draw_by_draw(v: Seq<u64>, n: u64)
    ensures
        crate::export::sum_of(v.push(n)) == crate::export::sum_of(v) + n,
        crate::export::sum_of(Seq::empty()) == 0,
{
    assert(v.push(n).drop_last() =~= v);
}

/// A material of the document is found by its path and its tint, both; the first counts.
pub proof fn a_material_is_found_by_path_and_tint(
    v: Seq<MaterialView>,
    path: Seq<char>,
    tint: Seq<u8>,
    from: int,
)
    requires
        0 <= from <= v.len(),
    ensures
        match crate::export::material_from(v, path, tint, from) {
            Some(m) => exists|i: int|
                from <= i < v.len() && (#[trigger] v[i]).path == path && v[i].tint == tint
                    && v[i].material == m && forall|k: int|
                    from <= k < i ==> (#[trigger] v[k]).path != path || v[k].tint != tint,
            None => forall|k: int|
                from <= k < v.len() ==> (#[trigger] v[k]).path != path || v[k].tint != tint,
        },
    decreases v.len() - from,
{
    if from < v.len() && !(v[from].path == path && v[from].tint == tint) {
        a_material_is_found_by_path_and_tint(v, path, tint, from + 1);
    } else if from < v.len() {
        assert(v[from].path == path);
    }
}

/// Whether a mesh of the document is that of a draw call.
pub open spec fn is_mesh_of(
    s: SharedView,
    key: Seq<char>,
    index: usize,
    overlay: bool,
    material: u32,
) -> bool {
    s.key == key && s.index == index && s.overlay == overlay && s.material == material
}

/// A mesh of the document is found by all that it was made of; the first counts.
pub proof fn a_mesh_is_found_by_all_it_was_made_of(
    v: Seq<SharedView>,
    key: Seq<char>,
    index: usize,
    overlay: bool,
    material: u32,
    from: int,
)
    requires
        0 <= from <= v.len(),
    ensures
        match crate::export::shared_from(v, key, index, overlay, material, from) {
            Some(m) => exists|i: int|
                from <= i < v.len() && #[trigger] is_mesh_of(v[i], key, index, overlay, material)
                    && v[i].shared == m && forall|k: int|
                    from <= k < i ==> !#[trigger] is_mesh_of(v[k], key, index, overlay, material),
            None => forall|k: int|
                from <= k < v.len() ==> !#[trigger] is_mesh_of(v[k], key, index, overlay, material),
        },
    decreases v.len() - from,
{
    if from < v.len() && !is_mesh_of(v[from], key, index, overlay, material) {
        a_mesh_is_found_by_all_it_was_made_of(v, key, index, overlay, material, from + 1);
    } else if from < v.len() {
        assert(is_mesh_of(v[from], key, index, overlay, material));
    }
}

/// Whether a geometry of the document is that of a draw call.
pub open spec fn is_geometry_of(
    s: ProbeView,
    key: Seq<char>,
    index: usize,
    overlay: bool,
) -> bool {
    s.key == key && s.index == index && s.overlay == overlay
}

/// The same of a geometry, which goes with any material.
pub proof fn a_geometry_is_found_by_all_it_was_made_of(
    v: Seq<ProbeView>,
    key: Seq<char>,
    index: usize,
    overlay: bool,
    from: int,
)
    requires
        0 <= from <= v.len() <= usize::MAX,
    ensures
        match crate::export::probe_from(v, key, index, overlay, from) {
            Some(i) => from <= i < v.len() && is_geometry_of(v[i as int], key, index, overlay)
                && forall|k: int|
                from <= k < i ==> !#[trigger] is_geometry_of(v[k], key, index, overlay),
            None => forall|k: int|
                from <= k < v.len() ==> !#[trigger] is_geometry_of(v[k], key, index, overlay),
        },
    decreases v.len() - from,
{
    if from < v.len() && !is_geometry_of(v[from], key, index, overlay) {
        a_geometry_is_found_by_all_it_was_made_of(v, key, index, overlay, from + 1);
    }
}

/// What a draw call needs: its material, if that is not known; nothing, if there is no such material or it
/// is only for tools, which is counted; its material in the document; else it is drawn and counted, lit as
/// its mesh and its material say, and needs coordinates in the lightmap only where it is lit by that.
#[verifier::rlimit(30)]
pub proof fn a_draw_call_needs_what_is_not_there(
    c: CtxView,
    key: Seq<char>,
    index: usize,
    overlay: bool,
    mesh: crate::mesh::MeshView,
    dc: DrawCallView,
    path: Seq<char>,
    tint: Seq<u8>,
)
    ensures
        ({
            let (after, step) = crate::export::drawn_of(
                c,
                key,
                index,
                overlay,
                mesh,
                dc,
                path,
                tint,
            );
            let known = c.materials.contains_key(path);
            let material = c.materials[path];
            let count = crate::export::triangles_of(dc.index_count);
            &&& !known ==> step == DrawStep::Fetch && after == c
            &&& known && material is None ==> step == DrawStep::Missing && after == c
            &&& known && material is Some && crate::material::is_tools(material->Some_0.raw)
                ==> step == DrawStep::Dropped && after.report == crate::report::after_tools_drop(
                c.report,
                path,
                count,
            )
            &&& known && material is Some && !crate::material::is_tools(material->Some_0.raw) ==> {
                let made = crate::export::material_from(c.gltf_materials, path, tint, 0);
                let r = material->Some_0.resolved;
                let in_lightmap = dc.has_baked_lighting_from_lightmap && crate::geometry::stream_of(
                    mesh,
                    dc,
                    "TEXCOORD"@,
                    3,
                ) is Some;
                &&& made is None ==> step == DrawStep::Material && after == c
                &&& made matches Some(number) ==> (step matches DrawStep::Drawn {
                    material,
                    lighting,
                    triangles,
                    needs_uv1,
                    needs_blend,
                    step: next,
                } && {
                    &&& material == number
                    &&& triangles == count
                    &&& lighting == if in_lightmap {
                        LightingClass::Lightmap
                    } else if r.unlit {
                        LightingClass::Unlit
                    } else {
                        LightingClass::Probe
                    }
                    &&& needs_uv1 == in_lightmap
                    &&& needs_blend == (r.layers is Some || r.env_layer2 is Some)
                    &&& after.report == crate::report::after_draw(c.report, path, count, lighting)
                    &&& lighting == LightingClass::Probe ==> match crate::export::probe_from(
                        c.probe_geometries,
                        key,
                        index,
                        overlay,
                        0,
                    ) {
                        Some(i) => next == MeshStep::Probe(i),
                        None => next == MeshStep::Build,
                    }
                    &&& lighting != LightingClass::Probe ==> match crate::export::shared_from(
                        c.meshes,
                        key,
                        index,
                        overlay,
                        number,
                        0,
                    ) {
                        Some(s) => next == MeshStep::Shared(s),
                        None => next == MeshStep::Build,
                    }
                })
            }
            &&& after.builder == c.builder
            &&& after.materials == c.materials
            &&& after.gltf_materials == c.gltf_materials
            &&& after.meshes == c.meshes
            &&& after.probe_geometries == c.probe_geometries
            &&& after.catalog == c.catalog
            &&& after.models == c.models
        }),
{
}

/// A material that is written is found again by its path and its tint, under its number, and what it amounts
/// to is what the document says there.
pub proof fn a_material_is_written_under_its_number(
    c: CtxView,
    path: Seq<char>,
    tint: Seq<u8>,
    inputs: crate::gltf_material::MaterialInputs,
    loads: Seq<Option<crate::native_texture::Loaded>>,
)
    requires
        c.builder.materials.len() < u32::MAX,
        c.materials.contains_key(path),
        c.materials[path] is Some,
    ensures
        ({
            let after = crate::export::after_material(c, path, tint, inputs, loads);
            let n = c.builder.materials.len() as int;
            let r = c.materials[path]->Some_0.resolved;
            &&& after.builder.materials.len() == n + 1
            &&& after.builder.materials.take(n) == c.builder.materials
            &&& after.builder.materials[n] == crate::gltf_material::material_json(
                path,
                r,
                inputs,
                loads,
            )
            &&& after.gltf_materials.len() == c.gltf_materials.len() + 1
            &&& after.gltf_materials.last().path == path
            &&& after.gltf_materials.last().tint == tint
            &&& after.gltf_materials.last().material == n
            &&& after.gltf_materials.drop_last() == c.gltf_materials
            &&& after.report.material_extras.len() == c.report.material_extras.len() + 1
            &&& after.report.material_extras.last().0 == n
            &&& after.report.material_extras.last().1 == crate::gltf_material::extras_json(
                r,
                inputs,
                loads,
            )
            &&& after.report.unlit_used == (c.report.unlit_used || r.unlit)
            &&& after.builder.meshes == c.builder.meshes
            &&& after.builder.nodes == c.builder.nodes
            &&& after.meshes == c.meshes
            &&& after.probe_geometries == c.probe_geometries
            &&& after.materials == c.materials
        }),
{
    let after = crate::export::after_material(c, path, tint, inputs, loads);
    assert(after.builder.materials.take(c.builder.materials.len() as int) =~= c.builder.materials);
    assert(after.gltf_materials.drop_last() =~= c.gltf_materials);
}

/// A geometry that is written is found again by what it was made of. One that is lit by probes waits for
/// the light of each instance; another is a mesh at once.
pub proof fn a_geometry_is_written_once(
    c: CtxView,
    key: Seq<char>,
    index: usize,
    overlay: bool,
    material: u32,
    lighting: LightingClass,
    indices: Seq<u32>,
    s: crate::geometry::Streams,
)
    requires
        c.builder.meshes.len() < u32::MAX,
        c.probe_geometries.len() < usize::MAX,
    ensures
        ({
            let (after, step) = crate::export::after_geometry(
                c,
                key,
                index,
                overlay,
                material,
                lighting,
                indices,
                s,
            );
            let g = crate::geometry::built_geometry(c.builder, indices, s);
            &&& lighting == LightingClass::Probe ==> {
                &&& step == MeshStep::Probe(c.probe_geometries.len() as usize)
                &&& after.probe_geometries.len() == c.probe_geometries.len() + 1
                &&& is_geometry_of(after.probe_geometries.last(), key, index, overlay)
                &&& after.probe_geometries.last().geometry == g
                &&& after.probe_geometries.last().center == s.center
                &&& after.meshes == c.meshes
                &&& after.builder == crate::geometry::with_geometry(c.builder, indices, s)
            }
            &&& lighting != LightingClass::Probe ==> {
                &&& step matches MeshStep::Shared(m) && m.mesh == c.builder.meshes.len()
                    && m.on_grid == g.on_grid && m.center == s.center
                    && after.meshes.last().shared == m
                &&& after.meshes.len() == c.meshes.len() + 1
                &&& is_mesh_of(after.meshes.last(), key, index, overlay, material)
                &&& after.probe_geometries == c.probe_geometries
                &&& after.builder.meshes.len() == c.builder.meshes.len() + 1
                &&& after.builder.meshes.last() == crate::geometry::mesh_json(
                    g,
                    None,
                    material,
                    lighting,
                )
                &&& after.builder.accessors == crate::geometry::with_geometry(
                    c.builder,
                    indices,
                    s,
                ).accessors
                &&& after.builder.bin == crate::geometry::with_geometry(c.builder, indices, s).bin
            }
        }),
{
}

/// An instance that is lit by probes brings its light, a mesh with it on the geometry that is there, and a
/// node; the vertices without light are counted.
pub proof fn an_instance_brings_its_light(
    c: CtxView,
    geometry: crate::geometry::BuiltGeometry,
    material: u32,
    lpv: Seq<Option<[u16; 4]>>,
    name: Option<Seq<char>>,
    transform: Seq<u32>,
    order: Option<i64>,
    handshake: i64,
)
    requires
        crate::export::has_room_to_bake(c, lpv.len() as int),
        crate::export::dark_count(lpv) <= lpv.len(),
        0 <= crate::export::dark_count(lpv),
    ensures
        ({
            let after = crate::export::after_probe_instance(
                c,
                geometry,
                material,
                lpv,
                name,
                transform,
                order,
                handshake,
            );
            let lit = crate::export::with_lights(c.builder, crate::export::lights_of(lpv));
            &&& after.builder.accessors == lit.accessors
            &&& after.builder.bin == lit.bin
            &&& after.builder.meshes == c.builder.meshes.push(
                crate::geometry::mesh_json(
                    geometry,
                    Some(c.builder.accessors.len() as u32),
                    material,
                    LightingClass::Probe,
                ),
            )
            &&& after.builder.nodes == c.builder.nodes.push(
                crate::export::instance_json(
                    name,
                    c.builder.meshes.len() as u32,
                    transform,
                    order,
                    handshake,
                ),
            )
            &&& after.report.counts.probe_sample_failures == c.report.counts.probe_sample_failures
                + crate::export::dark_count(lpv)
            &&& after.report.counts.triangles == c.report.counts.triangles
            &&& after.meshes == c.meshes
            &&& after.probe_geometries == c.probe_geometries
        }),
{
}

/// The map that a sky is of is its path without the directory of maps and without the ending of a map,
/// whatever the case of these.
pub proof fn a_map_is_known_by_its_path(
    prefix: Seq<char>,
    name: Seq<char>,
    ending: Seq<char>,
)
    requires
        crate::text::same_ignoring_case(prefix, "maps/"@),
        crate::text::same_ignoring_case(ending, ".vmap"@),
        !prefix.contains('\\'),
        !name.contains('\\'),
        !ending.contains('\\'),
    ensures
        crate::skybox::map_key(prefix + name + ending) == name,
{
    let s = prefix + name + ending;
    assert(crate::text::ascii_lowered(prefix).len() == "maps/"@.len()) by {
        assert(crate::text::ascii_lowered(prefix) == crate::text::ascii_lowered("maps/"@));
    }
    assert(prefix.len() == "maps/"@.len());
    assert(ending.len() == ".vmap"@.len()) by {
        assert(crate::text::ascii_lowered(ending) == crate::text::ascii_lowered(".vmap"@));
        assert(crate::text::ascii_lowered(ending).len() == ending.len());
    }
    assert(crate::text::forward_slashed(s) =~= s) by {
        assert forall|i: int| 0 <= i < s.len() implies s[i] != '\\' by {
            if i < prefix.len() {
                assert(prefix.contains(prefix[i]));
            } else if i < prefix.len() + name.len() {
                assert(name.contains(name[i - prefix.len()]));
            } else {
                assert(ending.contains(ending[i - prefix.len() - name.len()]));
            }
        }
    }
    assert(s.subrange(0, prefix.len() as int) =~= prefix);
    let rest = s.subrange(prefix.len() as int, s.len() as int);
    assert(rest =~= name + ending);
    assert(rest.subrange(rest.len() - ending.len(), rest.len() as int) =~= ending);
    assert(rest.subrange(0, rest.len() - ending.len()) =~= name);
}

/// The camera of a sky is the first of its class that has a scale, where it stands and as it is turned.
pub proof fn the_first_camera_with_a_scale_counts(v: Seq<Entity>, from: int)
    requires
        0 <= from <= v.len(),
    ensures
        match crate::skybox::first_camera(v, from) {
            Some(c) => exists|i: int|
                from <= i < v.len() && is_camera(#[trigger] v[i]) && crate::entity::single_of(
                    v[i],
                    "scale"@,
                ) == Some(c.scale) && c.origin == v[i].origin && c.angles == v[i].angles && forall|
                    k: int,
                |
                    from <= k < i ==> !is_camera(#[trigger] v[k]),
            None => forall|k: int| from <= k < v.len() ==> !is_camera(#[trigger] v[k]),
        },
    decreases v.len() - from,
{
    if from < v.len() {
        if is_camera(v[from]) {
            assert(is_camera(v[from]));
        } else {
            the_first_camera_with_a_scale_counts(v, from + 1);
        }
    }
}

/// Whether an entity is a camera of a sky with a scale.
pub open spec fn is_camera(e: Entity) -> bool {
    crate::entity::has_class(e, "sky_camera"@) && crate::entity::single_of(e, "scale"@) is Some
}

/// Of the files of a sky's map all are taken but those of its own sky, its own fog and its own grading; its
/// lightmaps get a name of their own.
pub proof fn files_of_a_sky_are_taken_in_order(
    a: Seq<(Seq<char>, Seq<u8>)>,
    f: (Seq<char>, Seq<u8>),
    rest: Seq<char>,
)
    ensures
        ({
            let before = crate::skybox::files_taken(a);
            let after = crate::skybox::files_taken(a.push(f));
            let dropped = f.0 == "render_sky_cube.bin"@ || f.0 == "render_fog_cube.bin"@ || f.0
                == "render_lut.bin"@ || "render_sky_face_"@.is_prefix_of(f.0);
            &&& dropped ==> after == before
            &&& !dropped ==> after == before.push((crate::skybox::renamed(f.0), f.1))
        }),
        crate::skybox::files_taken(Seq::empty()).len() == 0,
        crate::skybox::renamed("render_lm_"@ + rest) == "render_sky_lm_"@ + rest,
        !("render_lm_"@.is_prefix_of(rest)) ==> crate::skybox::renamed(rest) == rest,
{
    assert(a.push(f).drop_last() =~= a);
    crate::laws::texts::a_text_is_its_parts("render_lm_"@ + rest, "render_lm_"@, rest);
}

/// The file that an entry of a list names is renamed as the file is; nothing else of it changes.
pub proof fn a_renamed_entry_names_the_renamed_file(j: JsonView, other: Seq<char>)
    ensures
        ({
            let r = crate::skybox::renamed_item(j);
            &&& crate::json::field_of(j, "file"@) matches Some(JsonView::Str(s))
                ==> crate::json::field_of(r, "file"@) == Some(
                JsonView::Str(crate::skybox::renamed(s)),
            )
            &&& other != "file"@ ==> crate::json::field_of(r, other) == crate::json::field_of(
                j,
                other,
            )
            &&& !(crate::json::field_of(j, "file"@) matches Some(JsonView::Str(_))) ==> r == j
        }),
{
    match crate::json::field_of(j, "file"@) {
        Some(JsonView::Str(s)) => {
            crate::laws::reports::a_member_that_is_set_is_there(
                j->Object_0,
                "file"@,
                JsonView::Str(crate::skybox::renamed(s)),
                other,
            );
        },
        _ => {},
    }
}

/// The report of a sky's map keeps what it says but for its own sky, fog and grading, which are nothing, and
/// its lightmaps, which have their new names.
pub proof fn a_merged_report_has_no_sky_of_its_own(
    m: Seq<(Seq<char>, JsonView)>,
    other: Seq<char>,
)
    ensures
        ({
            let r = JsonView::Object(crate::skybox::merged_report(m));
            &&& crate::json::field_of(r, "sky"@) == Some(JsonView::Null)
            &&& crate::json::field_of(r, "fog"@) == Some(JsonView::Null)
            &&& crate::json::field_of(r, "postProcessing"@) == Some(JsonView::Null)
            &&& crate::json::field_of(r, "lighting"@) == Some(
                crate::skybox::renamed_lighting(
                    crate::json::field_of(JsonView::Object(m), "lighting"@),
                ),
            )
            &&& other != "lighting"@ && other != "sky"@ && other != "fog"@ && other
                != "postProcessing"@ && other != "skyFilesNote"@ ==> crate::json::field_of(r, other)
                == crate::json::field_of(JsonView::Object(m), other)
        }),
{
    reveal_strlit("lighting");
    reveal_strlit("sky");
    reveal_strlit("fog");
    reveal_strlit("postProcessing");
    reveal_strlit("skyFilesNote");
    assert("lighting"@.len() == 8 && "sky"@.len() == 3 && "fog"@.len() == 3
        && "postProcessing"@.len() == 14 && "skyFilesNote"@.len() == 12);
    assert("sky"@[0] == 's' && "fog"@[0] == 'f');
    let lit = crate::skybox::renamed_lighting(
        crate::json::field_of(JsonView::Object(m), "lighting"@),
    );
    let m1 = crate::json::with_member(m, "lighting"@, lit);
    let m2 = crate::json::with_member(m1, "sky"@, JsonView::Null);
    let m3 = crate::json::with_member(m2, "fog"@, JsonView::Null);
    let m4 = crate::json::with_member(m3, "postProcessing"@, JsonView::Null);
    let note = JsonView::Str(crate::skybox::SKY_FILES_NOTE@);
    lemma_set(m, "lighting"@, lit, other);
    lemma_set(m1, "sky"@, JsonView::Null, "lighting"@);
    lemma_set(m1, "sky"@, JsonView::Null, other);
    lemma_set(m2, "fog"@, JsonView::Null, "lighting"@);
    lemma_set(m2, "fog"@, JsonView::Null, "sky"@);
    lemma_set(m2, "fog"@, JsonView::Null, other);
    lemma_set(m3, "postProcessing"@, JsonView::Null, "lighting"@);
    lemma_set(m3, "postProcessing"@, JsonView::Null, "sky"@);
    lemma_set(m3, "postProcessing"@, JsonView::Null, "fog"@);
    lemma_set(m3, "postProcessing"@, JsonView::Null, other);
    lemma_set(m4, "skyFilesNote"@, note, "lighting"@);
    lemma_set(m4, "skyFilesNote"@, note, "sky"@);
    lemma_set(m4, "skyFilesNote"@, note, "fog"@);
    lemma_set(m4, "skyFilesNote"@, note, "postProcessing"@);
    lemma_set(m4, "skyFilesNote"@, note, other);
}

/// Setting a member.
proof fn lemma_set(
    m: Seq<(Seq<char>, JsonView)>,
    key: Seq<char>,
    v: JsonView,
    other: Seq<char>,
)
    ensures
        crate::json::field_of(JsonView::Object(crate::json::with_member(m, key, v)), key) == Some(
            v,
        ),
        other != key ==> crate::json::field_of(
            JsonView::Object(crate::json::with_member(m, key, v)),
            other,
        ) == crate::json::field_of(JsonView::Object(m), other),
{
    crate::laws::reports::a_member_that_is_set_is_there(m, key, v, other);
}

/// The lightmaps and those for readers that lack the format are renamed, each list item by item; nothing else
/// of the lighting changes.
pub proof fn lightmaps_of_a_sky_are_renamed(
    m: Seq<(Seq<char>, JsonView)>,
    key: Seq<char>,
    other: Seq<char>,
)
    ensures
        ({
            let r = JsonView::Object(crate::skybox::with_renamed_list(m, key));
            &&& crate::json::field_of(JsonView::Object(m), key) matches Some(JsonView::Array(v))
                ==> (crate::json::field_of(r, key) matches Some(JsonView::Array(w)) && w.len()
                == v.len() && forall|i: int|
                0 <= i < v.len() ==> #[trigger] w[i] == crate::skybox::renamed_item(v[i]))
            &&& crate::json::field_of(JsonView::Object(m), key) is None ==> crate::json::field_of(
                r,
                key,
            ) == Some(JsonView::Null)
            &&& other != key ==> crate::json::field_of(r, other) == crate::json::field_of(
                JsonView::Object(m),
                other,
            )
        }),
{
    match crate::json::field_of(JsonView::Object(m), key) {
        Some(JsonView::Array(v)) => {
            lemma_set(m, key, JsonView::Array(crate::skybox::renamed_items(v)), other);
        },
        None => {
            lemma_set(m, key, JsonView::Null, other);
            assert(crate::json::with_member(m, key, JsonView::Null) == m.push(
                (key, JsonView::Null),
            ));
        },
        _ => {},
    }
}

/// A material that was asked for is known from then on, as what it amounts to, and is not asked for again;
/// one that is not there is known not to be, and why is told.
pub proof fn a_material_is_known_once_it_was_asked_for(
    c: CtxView,
    path: Seq<char>,
    raw: Option<crate::material::RawView>,
    other: Seq<char>,
)
    ensures
        ({
            let after = crate::export::after_known(c, path, raw);
            &&& c.materials.contains_key(path) ==> after == c
            &&& !c.materials.contains_key(path) ==> {
                &&& after.materials.contains_key(path)
                &&& raw is None ==> after.materials[path] is None
                &&& raw matches Some(m) ==> (after.materials[path] matches Some(k) && k.raw == m
                    && k.resolved == crate::material::resolved(m))
                &&& other != path ==> (after.materials.contains_key(other)
                    == c.materials.contains_key(other)) && (c.materials.contains_key(other)
                    ==> after.materials[other] == c.materials[other])
                &&& after.builder == c.builder
                &&& after.report == c.report
            }
        }),
{
}

/// What was fetched for a path is decoded from its file; what cannot be had is told of.
pub proof fn what_is_fetched_is_decoded_or_told_of<T>(
    path: Seq<char>,
    what: Seq<char>,
    found: Option<Result<T, Seq<char>>>,
)
    ensures
        match found {
            Some(Ok(v)) => crate::place::loaded_or(path, what, found) == Ok::<T, Seq<char>>(v),
            Some(Err(why)) => crate::place::loaded_or(path, what, found) == Err::<T, Seq<char>>(
                path + ": "@ + what + ": "@ + why,
            ),
            None => crate::place::loaded_or(path, what, found) == Err::<T, Seq<char>>(
                path + ": not found"@,
            ),
        },
{
}

/// A material is decoded from the tree of its file and the user data of its block.
pub proof fn a_material_is_decoded_from_its_tree(resource: crate::kv::Resource, path: Seq<char>)
    ensures
        match resource.data {
            Ok(root) => crate::place::material_of(resource, path) == Ok::<
                crate::material::RawView,
                Seq<char>,
            >(crate::material::material_of(root, crate::material::block_red2(resource))),
            Err(_) => crate::place::material_of(resource, path) is Err,
        },
{
}

/// An aggregate is placed by fragments if any of them has a draw call.
pub proof fn an_aggregate_with_a_draw_call_is_placed_by_fragment(
    agg: crate::world::AggregateView,
    i: int,
)
    ensures
        0 <= i < agg.fragments.len() && agg.fragments[i].draw_call_index >= 0
            ==> crate::place::has_fragment_data(agg),
        (forall|k: int|
            0 <= k < agg.fragments.len() ==> (#[trigger] agg.fragments[k]).draw_call_index < 0)
            ==> !crate::place::has_fragment_data(agg),
{
}

/// An entity that was placed counts its triangles; one whose model was not found counts as that.
pub proof fn an_entity_counts_what_was_drawn_of_it(drawn: Option<u64>)
    ensures
        drawn matches Some(n) ==> crate::export::outcome_of(drawn)
            == crate::report::Outcome::Placed(n),
        drawn is None ==> crate::export::outcome_of(drawn) == crate::report::Outcome::NotFound,
{
}

/// An entity counts under its class, its name and its model.
pub proof fn an_entity_counts_by_what_it_says(
    c: CtxView,
    e: Entity,
    outcome: crate::report::Outcome,
)
    ensures
        ({
            let after = crate::export::after_entity(c, e, outcome);
            let class = match crate::entity::text_of(e, "classname"@) {
                Some(s) => s,
                None => Seq::empty(),
            };
            let model = match crate::entity::text_of(e, "model"@) {
                Some(s) => s,
                None => Seq::empty(),
            };
            &&& after.report == crate::report::after_entity(
                c.report,
                class,
                crate::entity::text_of(e, "targetname"@),
                model,
                outcome,
            )
            &&& after.builder == c.builder
            &&& after.materials == c.materials
            &&& after.catalog == c.catalog
            &&& after.meshes == c.meshes
        }),
{
}

/// What becomes of the entities of a lump comes in order; one without a class counts for nothing.
pub proof fn entities_count_in_order(
    v: Seq<Entity>,
    drawn: Seq<Option<u64>>,
    e: Entity,
    d: Option<u64>,
)
    requires
        v.len() == drawn.len(),
    ensures
        ({
            let before = crate::export::tallies(v, drawn);
            let after = crate::export::tallies(v.push(e), drawn.push(d));
            let class = crate::entity::class_of(e);
            match crate::lumps::step_of(e) {
                crate::lumps::EntityStepView::Nothing => after == before,
                crate::lumps::EntityStepView::Leave(o) => after == before.push((class, o)),
                crate::lumps::EntityStepView::Place(_) => after == before.push(
                    (
                        class,
                        match d {
                            Some(n) => crate::report::Outcome::Placed(n),
                            None => crate::report::Outcome::NotFound,
                        },
                    ),
                ),
            }
        }),
{
    assert(v.push(e).drop_last() =~= v);
    assert(drawn.push(d).drop_last() =~= drawn);
}

/// A path that was asked for is answered from then on: with the next number where it was found.
pub proof fn what_was_asked_for_has_its_number(
    s: crate::export::SeenView,
    path: Seq<char>,
    found: bool,
)
    requires
        0 <= s.count <= usize::MAX,
    ensures
        ({
            let after = crate::export::after_asking(s, path, found);
            &&& after.known.contains_key(path)
            &&& found ==> (after.known[path] matches Some(n) && n == s.count) && after.count
                == s.count + 1
            &&& !found ==> after.known[path] is None && after.count == s.count
        }),
        crate::export::nothing_seen().count == 0,
{
}

/// An entity refers to a sky if it is of the class for that and names a map.
pub proof fn a_reference_names_a_map(e: Entity)
    ensures
        crate::skybox::is_reference(e) == (crate::text::same_ignoring_case(
            crate::entity::class_of(e),
            "skybox_reference"@,
        ) && crate::entity::text_of(e, "targetmapname"@) is Some),
{
}

/// An image lies in the last plain view, with its type; its bytes are counted.
pub proof fn an_image_lies_in_its_view(
    b: crate::gltf::BuilderView,
    bytes: Seq<u8>,
    mime: Seq<char>,
)
    requires
        b.bin.len() + 3 <= usize::MAX,
        bytes.len() <= usize::MAX,
        b.buffer_views.len() < u32::MAX,
    ensures
        ({
            let after = crate::gltf::with_image(b, bytes, mime);
            &&& crate::laws::streams::ends_in_bytes(b, after, bytes, None)
            &&& after.images.len() == b.images.len() + 1
            &&& after.images.last().0 == b.buffer_views.len()
            &&& after.images.last().1 == mime
            &&& after.image_bytes == b.image_bytes + bytes.len()
            &&& after.meshes == b.meshes
            &&& after.nodes == b.nodes
            &&& after.materials == b.materials
            &&& after.textures == b.textures
        }),
{
    crate::laws::streams::a_plain_view_holds_its_bytes(b, bytes, None);
}

/// A light of an instance is read as four short words to a vertex.
pub proof fn lights_are_read_by_their_accessor(b: crate::gltf::BuilderView, v: Seq<[u16; 4]>)
    requires
        8 * v.len() <= isize::MAX / 4,
        0 <= b.fallback_bytes,
        b.fallback_bytes + 8 * v.len() + 3 <= usize::MAX,
        b.buffer_views.len() < u32::MAX,
        crate::export::with_lights(b, v).bin.len() <= usize::MAX,
    ensures
        crate::laws::streams::reads(
            crate::export::with_lights(b, v),
            b.accessors.len() as int,
            crate::bytes::all_bytes16(crate::gltf::rows16(v)),
            v.len() as int,
            8,
            5123,
            crate::gltf::Shape::Vec4,
            true,
        ),
        crate::laws::streams::extends(b, crate::export::with_lights(b, v)),
{
    crate::laws::streams::an_attribute_is_read_by_its_accessor(
        b,
        crate::bytes::all_bytes16(crate::gltf::rows16(v)),
        v.len() as int,
        8,
        crate::gltf::COMPONENT_TYPE_UNSIGNED_SHORT,
        crate::gltf::Shape::Vec4,
        true,
        None,
    );
}

} // verus!
