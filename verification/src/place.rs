//! What is placed: the draw calls of a mesh, the meshes of a model, the fragments of an aggregate,
//! and what is written down where something is missing.

use crate::error::MeshError;
use crate::kv::Resource;
use crate::material::{decode_material, RawMaterial, RawView};
use crate::mesh::{decode_mesh_resource, DrawCall, DrawCallView, Mesh};
use crate::model::{decode_model, Model, ModelView};
use crate::report::{Report, ReportView};
use crate::source::{compiled_path, failed, not_found};
use crate::table::Table;
use crate::text::{concat, decimal};
use crate::world::{
    build_fragment_placements, AggregateRaw, AggregateView, FragmentPlacement, SceneObjectRaw,
};
use vstd::prelude::*;

verus! {

/// The draw calls of scene objects, one after the other.
pub open spec fn flat_calls(objects: Seq<Seq<DrawCallView>>) -> Seq<DrawCallView>
    decreases objects.len(),
{
    if objects.len() == 0 {
        Seq::empty()
    } else {
        flat_calls(objects.drop_last()) + objects.last()
    }
}

/// The views of a list of draw calls that are lent.
pub open spec fn lent_calls(v: Seq<&DrawCall>) -> Seq<DrawCallView> {
    Seq::new(v.len(), |i: int| v[i]@)
}

/// The draw calls of a mesh, one after the other.
pub fn flatten_draw_calls<'a>(mesh: &'a Mesh) -> (r: Vec<&'a DrawCall>)
    ensures
        lent_calls(r@) == flat_calls(mesh@.scene_objects),
{
    let ghost all = mesh@.scene_objects;
    let mut out: Vec<&'a DrawCall> = Vec::new();
    assert(lent_calls(out@) =~= flat_calls(all.take(0)));
    let mut i: usize = 0;
    while i < mesh.scene_objects.len()
        invariant
            i <= mesh.scene_objects@.len(),
            all == mesh@.scene_objects,
            lent_calls(out@) == flat_calls(all.take(i as int)),
        decreases mesh.scene_objects@.len() - i,
    {
        let calls: &'a Vec<DrawCall> = &mesh.scene_objects[i].draw_calls;
        let ghost start = lent_calls(out@);
        let ghost views = crate::mesh::draw_call_views(calls@);
        assert(all[i as int] == views);
        assert(start + views.take(0) =~= start);
        let mut k: usize = 0;
        while k < calls.len()
            invariant
                k <= calls@.len(),
                views == crate::mesh::draw_call_views(calls@),
                lent_calls(out@) == start + views.take(k as int),
            decreases calls@.len() - k,
        {
            let dc: &'a DrawCall = &calls[k];
            proof {
                assert(lent_calls(out@.push(dc)) =~= lent_calls(out@).push(dc@));
                assert(start + views.take(k + 1) =~= (start + views.take(k as int)).push(
                    views[k as int],
                ));
            }
            out.push(dc);
            k += 1;
        }
        proof {
            assert(views.take(k as int) =~= views);
            assert(all.take(i + 1).drop_last() =~= all.take(i as int));
            assert(all.take(i + 1).last() == views);
        }
        i += 1;
    }
    assert(all.take(i as int) =~= all);
    out
}

/// A draw call that is placed: which it is, and with which material.
#[derive(Debug, Clone)]
pub struct PlannedDraw {
    pub index: usize,
    pub material: String,
}

/// A [`PlannedDraw`] as plain values.
pub struct PlanView {
    pub index: usize,
    pub material: Seq<char>,
}

impl View for PlannedDraw {
    type V = PlanView;

    open spec fn view(&self) -> PlanView {
        PlanView { index: self.index, material: self.material@ }
    }
}

/// The views of a list of plans.
pub open spec fn plan_views(v: Seq<PlannedDraw>) -> Seq<PlanView> {
    Seq::new(v.len(), |i: int| v[i]@)
}

/// A material as a skin changes it.
pub open spec fn worn(material: Seq<char>, skin: Option<Map<Seq<char>, String>>) -> Seq<char> {
    match skin {
        Some(m) => match crate::table::named(m, material) {
            Some(other) => other@,
            None => material,
        },
        None => material,
    }
}

/// The draw calls that are placed: those that draw triangles and name a material, with the material
/// that the skin gives them.
pub open spec fn draws_of(calls: Seq<DrawCallView>, skin: Option<Map<Seq<char>, String>>) -> Seq<
    PlanView,
>
    decreases calls.len(),
{
    if calls.len() == 0 {
        Seq::empty()
    } else {
        let before = draws_of(calls.drop_last(), skin);
        let dc = calls.last();
        match dc.material_path {
            Some(m) => if dc.is_triangle_list {
                before.push(PlanView { index: (calls.len() - 1) as usize, material: worn(m, skin) })
            } else {
                before
            },
            None => before,
        }
    }
}

/// The values of an optional table.
pub open spec fn opt_table(t: Option<&Table<String>>) -> Option<Map<Seq<char>, String>> {
    match t {
        Some(t) => Some(t@),
        None => None,
    }
}

/// The draw calls of a mesh that are placed.
pub fn plan_draws(calls: &Vec<&DrawCall>, skin: Option<&Table<String>>) -> (r: Vec<PlannedDraw>)
    ensures
        plan_views(r@) == draws_of(lent_calls(calls@), opt_table(skin)),
{
    let ghost all = lent_calls(calls@);
    let ghost map = opt_table(skin);
    let mut out: Vec<PlannedDraw> = Vec::new();
    assert(plan_views(out@) =~= draws_of(all.take(0), map));
    let mut i: usize = 0;
    while i < calls.len()
        invariant
            i <= calls@.len(),
            all == lent_calls(calls@),
            map == opt_table(skin),
            plan_views(out@) == draws_of(all.take(i as int), map),
        decreases calls@.len() - i,
    {
        let dc: &DrawCall = calls[i];
        proof {
            assert(all.take(i + 1).drop_last() =~= all.take(i as int));
            assert(all.take(i + 1).last() == dc@);
        }
        match &dc.material_path {
            Some(m) => {
                if dc.is_triangle_list {
                    let material: String = match skin {
                        Some(t) => match t.get(m.as_str()) {
                            Some(other) => other.clone(),
                            None => m.clone(),
                        },
                        None => m.clone(),
                    };
                    let plan: PlannedDraw = PlannedDraw { index: i, material };
                    assert(plan_views(out@.push(plan)) =~= plan_views(out@).push(plan@));
                    out.push(plan);
                }
            },
            None => {},
        }
        i += 1;
    }
    assert(all.take(i as int) =~= all);
    out
}

/// Whether a draw call is an overlay: its object is, or its material says so.
pub fn is_overlay(object_overlay: bool, material_overlay: bool) -> (r: bool)
    ensures
        r == (object_overlay || material_overlay),
{
    object_overlay || material_overlay
}

/// The order of an overlay: only an object that is an overlay itself has one, and one of nought is
/// none.
pub open spec fn order_of(is_overlay: bool, order: i64) -> Option<i64> {
    if is_overlay && order != 0 {
        Some(order)
    } else {
        None
    }
}

/// The order of an overlay.
pub fn overlay_order(so: &SceneObjectRaw) -> (r: Option<i64>)
    ensures
        r == order_of(so.is_overlay, so.overlay_render_order),
{
    if so.is_overlay && so.overlay_render_order != 0 {
        Some(so.overlay_render_order)
    } else {
        None
    }
}

/// What a scene object places.
#[derive(Debug, Clone)]
pub enum Placed {
    Nothing,
    /// A model, by the path of its resource.
    Model(String),
    /// A mesh, by the path of its resource.
    Mesh(String),
}

/// What a scene object places: its model, else its mesh.
pub fn placed_by(so: &SceneObjectRaw) -> (r: Placed)
    ensures
        match r {
            Placed::Model(path) => so@.renderable_model is Some && path@ == crate::source::compiled(
                so@.renderable_model->Some_0,
            ),
            Placed::Mesh(path) => so@.renderable_model is None && so@.renderable is Some && path@
                == crate::source::compiled(so@.renderable->Some_0),
            Placed::Nothing => so@.renderable_model is None && so@.renderable is None,
        },
{
    match &so.renderable_model {
        Some(m) => Placed::Model(compiled_path(m.as_str())),
        None => match &so.renderable {
            Some(m) => Placed::Mesh(compiled_path(m.as_str())),
            None => Placed::Nothing,
        },
    }
}

/// Where a mesh of a model stands: among those in its own resource, or in a resource of its own.
#[derive(Debug, Clone)]
pub enum MeshAt {
    Embedded(usize),
    Resource(String),
}

/// A mesh of a model, and the name by which it is known.
#[derive(Debug, Clone)]
pub struct MeshPick {
    pub key: String,
    pub at: MeshAt,
}

/// A [`MeshAt`] as plain values.
pub enum MeshAtView {
    Embedded(usize),
    Resource(Seq<char>),
}

/// A [`MeshPick`] as plain values.
pub struct MeshPickView {
    pub key: Seq<char>,
    pub at: MeshAtView,
}

impl View for MeshAt {
    type V = MeshAtView;

    open spec fn view(&self) -> MeshAtView {
        match *self {
            MeshAt::Embedded(i) => MeshAtView::Embedded(i),
            MeshAt::Resource(p) => MeshAtView::Resource(p@),
        }
    }
}

impl View for MeshPick {
    type V = MeshPickView;

    open spec fn view(&self) -> MeshPickView {
        MeshPickView { key: self.key@, at: self.at@ }
    }
}

/// The views of a list of meshes.
pub open spec fn pick_views(v: Seq<MeshPick>) -> Seq<MeshPickView> {
    Seq::new(v.len(), |i: int| v[i]@)
}

/// The meshes in a model's own resource that belong to its lowest level.
pub open spec fn embedded_picks(path: Seq<char>, model: ModelView, n: int) -> Seq<MeshPickView>
    decreases n,
{
    if n <= 0 {
        Seq::empty()
    } else {
        let before = embedded_picks(path, model, n - 1);
        let m = model.embedded_meshes[n - 1];
        if crate::model::in_level(
            model.lod.mesh_lod_masks,
            m.mesh_index as int,
            model.lod.lowest_level as int,
        ) {
            before.push(
                MeshPickView {
                    key: path + "#embedded"@ + crate::text::decimal_text(m.mesh_index as int),
                    at: MeshAtView::Embedded((n - 1) as usize),
                },
            )
        } else {
            before
        }
    }
}

/// The meshes in resources of their own that belong to the lowest level.
pub open spec fn ref_picks(path: Seq<char>, model: ModelView, n: int) -> Seq<MeshPickView>
    decreases n,
{
    if n <= 0 {
        Seq::empty()
    } else {
        let before = ref_picks(path, model, n - 1);
        let m = model.ref_meshes[n - 1];
        let at = crate::source::compiled(m.mesh_path);
        if crate::model::in_level(
            model.lod.mesh_lod_masks,
            m.mesh_index as int,
            model.lod.lowest_level as int,
        ) {
            before.push(
                MeshPickView {
                    key: path + "#ref"@ + crate::text::decimal_text(m.mesh_index as int) + ":"@
                        + at,
                    at: MeshAtView::Resource(at),
                },
            )
        } else {
            before
        }
    }
}

/// The meshes of a model at its lowest level, which has most detail: first those in its own
/// resource, then the others.
pub open spec fn picks_of(path: Seq<char>, model: ModelView) -> Seq<MeshPickView> {
    embedded_picks(path, model, model.embedded_meshes.len() as int) + ref_picks(
        path,
        model,
        model.ref_meshes.len() as int,
    )
}

/// The meshes of a model at its lowest level.
pub fn model_meshes_at_lowest_lod(model_path: &str, model: &Model) -> (r: Vec<MeshPick>)
    requires
        0 <= model.lod.lowest_level < 64,
    ensures
        pick_views(r@) == picks_of(model_path@, model@),
{
    let level: i64 = model.lod.lowest_level;
    let mut out: Vec<MeshPick> = Vec::new();
    assert(pick_views(out@) =~= embedded_picks(model_path@, model@, 0));
    let mut i: usize = 0;
    while i < model.embedded_meshes.len()
        invariant
            i <= model.embedded_meshes@.len(),
            0 <= level < 64,
            level == model.lod.lowest_level,
            pick_views(out@) == embedded_picks(model_path@, model@, i as int),
        decreases model.embedded_meshes@.len() - i,
    {
        assert(model@.embedded_meshes[i as int] == model.embedded_meshes@[i as int]@);
        let index: usize = model.embedded_meshes[i].mesh_index;
        if model.lod.is_mesh_in_level(index, level) {
            let mut key: String = concat(model_path, "#embedded");
            key.append(decimal(index as u64).as_str());
            let pick: MeshPick = MeshPick { key, at: MeshAt::Embedded(i) };
            assert(pick_views(out@.push(pick)) =~= pick_views(out@).push(pick@));
            out.push(pick);
        }
        i += 1;
    }
    let ghost start = pick_views(out@);
    assert(start + ref_picks(model_path@, model@, 0) =~= start);
    let mut k: usize = 0;
    while k < model.ref_meshes.len()
        invariant
            k <= model.ref_meshes@.len(),
            0 <= level < 64,
            level == model.lod.lowest_level,
            pick_views(out@) == start + ref_picks(model_path@, model@, k as int),
        decreases model.ref_meshes@.len() - k,
    {
        assert(model@.ref_meshes[k as int] == model.ref_meshes@[k as int]@);
        let index: usize = model.ref_meshes[k].mesh_index;
        if model.lod.is_mesh_in_level(index, level) {
            let path: String = compiled_path(model.ref_meshes[k].mesh_path.as_str());
            let mut key: String = concat(model_path, "#ref");
            key.append(decimal(index as u64).as_str());
            key.append(":");
            key.append(path.as_str());
            let pick: MeshPick = MeshPick { key, at: MeshAt::Resource(path) };
            proof {
                assert(pick_views(out@.push(pick)) =~= pick_views(out@).push(pick@));
                assert((start + ref_picks(model_path@, model@, k as int)).push(pick@) =~= start
                    + ref_picks(model_path@, model@, k as int).push(pick@));
            }
            out.push(pick);
        }
        k += 1;
    }
    out
}

/// Whether some fragment of an aggregate says which draw call it is.
pub open spec fn has_fragment_data(agg: AggregateView) -> bool {
    exists|i: int| 0 <= i < agg.fragments.len() && (#[trigger] agg.fragments[i]).draw_call_index >= 0
}

/// Whether an aggregate is placed fragment by fragment; one whose fragments name no draw call is
/// placed as a whole.
pub fn is_placed_by_fragment(agg: &AggregateRaw) -> (r: bool)
    ensures
        r == has_fragment_data(agg@),
{
    let mut i: usize = 0;
    while i < agg.fragments.len()
        invariant
            i <= agg.fragments@.len(),
            forall|k: int| 0 <= k < i ==> (#[trigger] agg@.fragments[k]).draw_call_index < 0,
        decreases agg.fragments@.len() - i,
    {
        assert(agg@.fragments[i as int] == agg.fragments@[i as int]@);
        if agg.fragments[i].draw_call_index >= 0 {
            return true;
        }
        i += 1;
    }
    false
}

/// The mesh of which the fragments of an aggregate are: the first of its model, those in the
/// model's own resource before the others.
pub open spec fn aggregate_mesh_of(model: ModelView) -> Option<MeshAtView> {
    if model.embedded_meshes.len() > 0 {
        Some(MeshAtView::Embedded(0))
    } else if model.ref_meshes.len() > 0 {
        Some(MeshAtView::Resource(crate::source::compiled(model.ref_meshes[0].mesh_path)))
    } else {
        None
    }
}

/// The mesh of which the fragments of an aggregate are.
pub fn aggregate_mesh(model: &Model) -> (r: Option<MeshAt>)
    ensures
        crate::material::opt_view(r) == aggregate_mesh_of(model@),
{
    if model.embedded_meshes.len() > 0 {
        Some(MeshAt::Embedded(0))
    } else if model.ref_meshes.len() > 0 {
        assert(model@.ref_meshes[0] == model.ref_meshes@[0]@);
        Some(MeshAt::Resource(compiled_path(model.ref_meshes[0].mesh_path.as_str())))
    } else {
        None
    }
}

/// The message for an aggregate whose mesh cannot be had.
pub fn no_fragment_mesh(path: &str) -> (r: String)
    ensures
        r@ == path@ + ": not found or failed to decode"@,
{
    concat(path, ": not found or failed to decode")
}

/// What becomes of a fragment.
#[derive(Debug, Clone)]
pub enum FragmentDraw {
    /// It names a draw call that the mesh does not have: the message.
    Missing(String),
    /// Its draw call draws no triangles, or has no material.
    Skipped,
    /// It is drawn with a material.
    Drawn(String),
}

/// The message for a fragment that names a draw call that the mesh does not have.
pub open spec fn missing_call_text(path: Seq<char>, index: int, count: int) -> Seq<char> {
    path + ": fragment references draw call "@ + crate::text::decimal_text(index) + " out of "@
        + crate::text::decimal_text(count)
}

/// A [`FragmentDraw`] as plain values.
pub enum FragmentDrawView {
    Missing(Seq<char>),
    Skipped,
    Drawn(Seq<char>),
}

impl View for FragmentDraw {
    type V = FragmentDrawView;

    open spec fn view(&self) -> FragmentDrawView {
        match *self {
            FragmentDraw::Missing(m) => FragmentDrawView::Missing(m@),
            FragmentDraw::Skipped => FragmentDrawView::Skipped,
            FragmentDraw::Drawn(m) => FragmentDrawView::Drawn(m@),
        }
    }
}

/// What becomes of a fragment that names a draw call.
pub open spec fn fragment_draw_of(calls: Seq<DrawCallView>, index: int, path: Seq<char>) -> FragmentDrawView {
    if index >= calls.len() {
        FragmentDrawView::Missing(missing_call_text(path, index, calls.len() as int))
    } else if !calls[index].is_triangle_list {
        FragmentDrawView::Skipped
    } else {
        match calls[index].material_path {
            Some(m) => FragmentDrawView::Drawn(m),
            None => FragmentDrawView::Skipped,
        }
    }
}

/// What becomes of a fragment that names a draw call.
pub fn fragment_draw(calls: &Vec<&DrawCall>, index: usize, path: &str) -> (r: FragmentDraw)
    ensures
        r@ == fragment_draw_of(lent_calls(calls@), index as int, path@),
{
    if index >= calls.len() {
        let mut m: String = concat(path, ": fragment references draw call ");
        m.append(decimal(index as u64).as_str());
        m.append(" out of ");
        m.append(decimal(calls.len() as u64).as_str());
        return FragmentDraw::Missing(m);
    }
    let dc: &DrawCall = calls[index];
    if !dc.is_triangle_list {
        return FragmentDraw::Skipped;
    }
    match &dc.material_path {
        Some(m) => FragmentDraw::Drawn(m.clone()),
        None => FragmentDraw::Skipped,
    }
}

/// A fragment with its place, and what becomes of it.
#[derive(Debug, Clone)]
pub struct FragmentPlan {
    pub at: FragmentPlacement,
    pub draw: FragmentDraw,
}

/// What the fragments of an aggregate become, one after the other. `collapsed` tells of each of the
/// aggregate's transforms whether its determinant is zero. Where a transform is missing there is
/// only a message.
pub fn plan_fragments(
    agg: &AggregateRaw,
    collapsed: &Vec<bool>,
    calls: &Vec<&DrawCall>,
    path: &str,
) -> (r: Result<Vec<FragmentPlan>, String>)
    requires
        collapsed@.len() == agg.fragment_transforms@.len(),
    ensures
        match crate::world::placements_of(agg@, collapsed@, agg.fragments@.len() as int) {
            Err(e) => r is Err && r->Err_0@ == path@ + ": "@ + crate::world::shortage_text(e),
            Ok(places) => {
                &&& r is Ok
                &&& r->Ok_0@.len() == places.len()
                &&& forall|i: int|
                    0 <= i < places.len() ==> (#[trigger] r->Ok_0@[i]).at@ == places[i]
                        && r->Ok_0@[i].draw@ == fragment_draw_of(
                        lent_calls(calls@),
                        places[i].draw_call_index as int,
                        path@,
                    )
            },
        },
{
    let placements: Vec<FragmentPlacement> = match build_fragment_placements(agg, collapsed) {
        Ok(p) => p,
        Err(e) => {
            let mut m: String = concat(path, ": ");
            m.append(e.message().as_str());
            return Err(m);
        },
    };
    let ghost places = crate::world::placement_views(placements@);
    let mut out: Vec<FragmentPlan> = Vec::new();
    let mut i: usize = 0;
    while i < placements.len()
        invariant
            i <= placements@.len(),
            out@.len() == i,
            places == crate::world::placement_views(placements@),
            forall|k: int|
                0 <= k < i ==> (#[trigger] out@[k]).at@ == places[k] && out@[k].draw@
                    == fragment_draw_of(
                    lent_calls(calls@),
                    places[k].draw_call_index as int,
                    path@,
                ),
        decreases placements@.len() - i,
    {
        let at: FragmentPlacement = placements[i];
        assert(places[i as int] == at@);
        out.push(FragmentPlan { at, draw: fragment_draw(calls, at.draw_call_index, path) });
        i += 1;
    }
    Ok(out)
}

/// How an aggregate is placed.
#[derive(Debug, Clone)]
pub enum AggregatePlan {
    /// As a whole: its fragments name no draw call.
    Whole,
    /// Fragment by fragment, out of a mesh.
    Fragments(MeshAt),
    /// Not at all: its model has no mesh, as the message says.
    Missing(String),
}

/// How an aggregate is placed, where `path` is that of its model.
pub fn plan_aggregate(agg: &AggregateRaw, model: &Model, path: &str) -> (r: AggregatePlan)
    ensures
        match r {
            AggregatePlan::Whole => !has_fragment_data(agg@),
            AggregatePlan::Fragments(at) => has_fragment_data(agg@) && Some(at@)
                == aggregate_mesh_of(model@),
            AggregatePlan::Missing(m) => has_fragment_data(agg@) && aggregate_mesh_of(model@) is None
                && m@ == path@ + ": aggregate model has no mesh"@,
        },
{
    if !is_placed_by_fragment(agg) {
        return AggregatePlan::Whole;
    }
    match aggregate_mesh(model) {
        Some(at) => AggregatePlan::Fragments(at),
        None => AggregatePlan::Missing(concat(path, ": aggregate model has no mesh")),
    }
}

/// A report with a message more.
pub open spec fn with_message(r: ReportView, message: Seq<char>) -> ReportView {
    ReportView { missing_resources: r.missing_resources.push(message), ..r }
}

/// What comes of a resource that was asked for, and the message where nothing comes of it.
pub open spec fn loaded_or<T>(
    path: Seq<char>,
    what: Seq<char>,
    found: Option<Result<T, Seq<char>>>,
) -> Result<T, Seq<char>> {
    match found {
        None => Err(crate::source::not_found_text(path)),
        Some(Err(why)) => Err(crate::source::failed_text(path, what, why)),
        Some(Ok(v)) => Ok(v),
    }
}

/// Whether `text` are the words of an error of which `f` is known.
pub open spec fn tells(text: Seq<char>, f: crate::error::Fault) -> bool {
    exists|e: MeshError|
        crate::error::known(e@) == f && #[trigger] crate::error::fault_text(e@) == text
}

/// What a report gains where something was to be decoded: nothing where that went well, else the
/// message. `found` is what came of decoding it, and none where it is in no archive.
pub open spec fn notes<T>(
    before: ReportView,
    after: ReportView,
    path: Seq<char>,
    what: Seq<char>,
    found: Option<Result<T, crate::error::Fault>>,
) -> bool {
    match found {
        None => after == with_message(before, crate::source::not_found_text(path)),
        Some(Ok(_)) => after == before,
        Some(Err(f)) => exists|why: Seq<char>|
            tells(why, f) && after == with_message(
                before,
                #[trigger] crate::source::failed_text(path, what, why),
            ),
    }
}

/// What was decoded, where that went well.
pub open spec fn gained<T>(found: Option<Result<T, crate::error::Fault>>) -> Option<T> {
    match found {
        Some(Ok(v)) => Some(v),
        _ => None,
    }
}

/// Decodes a model that was asked for; `fetched` is what the archives gave. What is missing or
/// cannot be decoded is written down.
pub fn load_model(report: &mut Report, path: &str, fetched: Option<&Resource>) -> (r: Option<Model>)
    ensures
        ({
            let found = match fetched {
                None => None,
                Some(resource) => Some(crate::model::model_of(*resource)),
            };
            &&& crate::material::opt_view(r) == gained(found)
            &&& notes(old(report)@, final(report)@, path@, "failed to decode model"@, found)
        }),
        crate::report::sound(old(report)@) ==> crate::report::sound(final(report)@),
{
    match fetched {
        None => {
            report.note_missing(not_found(path));
            None
        },
        Some(resource) => match decode_model(resource) {
            Ok(m) => Some(m),
            Err(e) => {
                report.note_missing(failed(path, "failed to decode model", e.message().as_str()));
                None
            },
        },
    }
}

/// Decodes a mesh that was asked for.
pub fn load_mesh(report: &mut Report, path: &str, fetched: Option<&Resource>) -> (r: Option<Mesh>)
    ensures
        ({
            let found = match fetched {
                None => None,
                Some(resource) => Some(crate::mesh::mesh_of(*resource, path@)),
            };
            &&& crate::material::opt_view(r) == gained(found)
            &&& notes(old(report)@, final(report)@, path@, "failed to decode mesh"@, found)
        }),
        crate::report::sound(old(report)@) ==> crate::report::sound(final(report)@),
{
    match fetched {
        None => {
            report.note_missing(not_found(path));
            None
        },
        Some(resource) => match decode_mesh_resource(resource, path) {
            Ok(m) => Some(m),
            Err(e) => {
                report.note_missing(failed(path, "failed to decode mesh", e.message().as_str()));
                None
            },
        },
    }
}

/// The material of a resource, or the error in words.
pub open spec fn material_of(resource: Resource, path: Seq<char>) -> Result<RawView, Seq<char>> {
    match resource.data {
        Ok(root) => Ok(
            crate::material::material_of(root, crate::material::block_red2(resource)),
        ),
        Err(message) => Err(crate::material::material_error_text(path, message@)),
    }
}

/// Decodes a material that was asked for.
pub fn load_material(report: &mut Report, path: &str, fetched: Option<&Resource>) -> (r: Option<
    RawMaterial,
>)
    ensures
        ({
            let found = match fetched {
                None => None,
                Some(resource) => Some(material_of(*resource, path@)),
            };
            match loaded_or(path@, "failed to decode material"@, found) {
                Ok(v) => r is Some && r->Some_0@ == v && final(report)@ == old(report)@,
                Err(m) => r is None && final(report)@ == with_message(old(report)@, m),
            }
        }),
        crate::report::sound(old(report)@) ==> crate::report::sound(final(report)@),
{
    match fetched {
        None => {
            report.note_missing(not_found(path));
            None
        },
        Some(resource) => match decode_material(resource, path) {
            Ok(m) => Some(m),
            Err(e) => {
                report.note_missing(
                    failed(path, "failed to decode material", e.message().as_str()),
                );
                None
            },
        },
    }
}

} // verus!
