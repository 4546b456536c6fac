//! The export of a map: what was seen, built and placed so far.
//!
//! Reading archives and computing with singles is left to the caller, who asks what is needed next
//! and hands back what was read or worked out.

use crate::bits::F32_ONE;
use crate::entity::{Entity, EntityLump};
use crate::error::MeshError;
use crate::geometry::{
    add_geometry, classify_lighting, write_mesh, BuiltGeometry, DrawGeometry, GeometryView, Streams,
};
use crate::gltf::{node_matrix, write_indices, BuilderView, GlbTooLarge, GltfBuilder};
use crate::gltf_material::{write_extras, write_material, MaterialInputs};
use crate::json::{Json, JsonView, Members};
use crate::kv::Resource;
use crate::lumps::{entity_step, EntityStep, EntityStepView};
use crate::material::{resolve, RawMaterial, RawView, ResolvedMaterial, ResolvedView};
use crate::mesh::{DrawCall, DrawCallView, Mesh, MeshView};
use crate::native_texture::{CatalogView, Loaded, TextureCatalog};
use crate::place::load_material;
use crate::report::{ClassStats, LightingClass, Outcome, Report, ReportView, ToolsDrop};
use crate::source::{compiled_path, SourceError};
use crate::table::Table;
use crate::text::{concat, decimal, same};
use crate::world::{Transform, IDENTITY_TRANSFORM};
use vstd::prelude::*;

verus! {

/// What an export gives: the geometry, the report, and the files beside them.
#[derive(Debug)]
pub struct ExportResult {
    pub glb: Vec<u8>,
    pub report: Json,
    pub extra_files: Vec<(String, Vec<u8>)>,
}

/// What can be set of an export.
#[derive(Debug, Clone, Copy, PartialEq, Eq, Structural)]
pub struct ExportOptions {
    /// The longest side of a texture.
    pub max_texture: u32,
    /// Whether the light of the lightmaps is written at its full size.
    pub lightmap_quality_high: bool,
}

impl Default for ExportOptions {
    fn default() -> (r: ExportOptions)
        ensures
            r == (ExportOptions { max_texture: 1024, lightmap_quality_high: false }),
    {
        ExportOptions { max_texture: 1024, lightmap_quality_high: false }
    }
}

/// Why a map could not be exported.
#[derive(Debug)]
pub enum ExportError {
    World(SourceError),
    NoEntityLumps,
    Glb(GlbTooLarge),
}

/// The message of an export error.
pub open spec fn export_error_text(e: ExportError) -> Seq<char> {
    match e {
        ExportError::World(s) => "failed to read world.vwrld_c: "@
            + crate::source::source_error_text(s),
        ExportError::NoEntityLumps =>
            "no entity lumps could be resolved (world listed none, and no *.vents_c in the map VPK)"@,
        ExportError::Glb(g) => "failed to write glb: "@ + crate::gltf::too_large_text(g),
    }
}

impl ExportError {
    /// The message.
    pub fn message(&self) -> (r: String)
        ensures
            r@ == export_error_text(*self),
    {
        match self {
            ExportError::World(s) => concat(
                "failed to read world.vwrld_c: ",
                s.message().as_str(),
            ),
            ExportError::NoEntityLumps =>
                "no entity lumps could be resolved (world listed none, and no *.vents_c in the map VPK)".to_owned(),
            ExportError::Glb(g) => concat("failed to write glb: ", g.message().as_str()),
        }
    }
}

/// Why an export could not be written.
#[derive(Debug)]
pub enum ExportWriteError {
    Export(ExportError),
    Io { path: String, message: String },
    Cancelled,
}

/// The message of a write error.
pub open spec fn write_error_text(e: ExportWriteError) -> Seq<char> {
    match e {
        ExportWriteError::Export(e) => export_error_text(e),
        ExportWriteError::Io { path, message } => "failed to write "@ + path@ + ": "@ + message@,
        ExportWriteError::Cancelled => "cancelled"@,
    }
}

impl ExportWriteError {
    /// The message.
    pub fn message(&self) -> (r: String)
        ensures
            r@ == write_error_text(*self),
    {
        match self {
            ExportWriteError::Export(e) => e.message(),
            ExportWriteError::Io { path, message } => {
                let mut r: String = concat("failed to write ", path.as_str());
                r.append(": ");
                r.append(message.as_str());
                r
            },
            ExportWriteError::Cancelled => "cancelled".to_owned(),
        }
    }
}

/// How far an export is.
#[derive(Debug, Clone, Copy, PartialEq, Eq, Structural)]
pub enum ExportStage {
    Exporting,
    Writing { done: usize, total: usize },
}

/// A step of writing an export.
#[derive(Debug, Clone, Copy, PartialEq, Eq, Structural)]
pub enum WriteStep {
    /// Stop if the export was cancelled.
    Check,
    /// Tell how far the export is.
    Tell(ExportStage),
    /// Write the file beside the geometry with this number.
    Extra(usize),
    /// Write the geometry.
    Glb,
    /// Write the report.
    Report,
}

/// How far the writing is.
pub open spec fn writing(done: int, extra: int) -> WriteStep {
    WriteStep::Tell(ExportStage::Writing { done: done as usize, total: (extra + 2) as usize })
}

/// The steps of writing the first `n` of the files beside the geometry.
pub open spec fn extra_steps(n: int, extra: int) -> Seq<WriteStep>
    decreases n,
{
    if n <= 0 {
        Seq::empty()
    } else {
        extra_steps(n - 1, extra).push(WriteStep::Check).push(
            WriteStep::Extra((n - 1) as usize),
        ).push(writing(n, extra))
    }
}

/// The steps of writing an export with so many files beside the geometry: these files first, then
/// the geometry, and last the report, whose presence tells that the export is complete.
pub open spec fn steps_of(extra: int) -> Seq<WriteStep> {
    (Seq::empty().push(WriteStep::Check).push(writing(0, extra)) + extra_steps(extra, extra)).push(
        WriteStep::Check,
    ).push(WriteStep::Glb).push(writing(extra + 1, extra)).push(WriteStep::Report).push(
        writing(extra + 2, extra),
    )
}

/// The steps of writing an export with so many files beside the geometry.
pub fn write_steps(extra: usize) -> (r: Vec<WriteStep>)
    requires
        extra + 2 <= usize::MAX,
    ensures
        r@ == steps_of(extra as int),
{
    let total: usize = extra + 2;
    let mut out: Vec<WriteStep> = Vec::new();
    out.push(WriteStep::Check);
    out.push(WriteStep::Tell(ExportStage::Writing { done: 0, total }));
    let ghost start = out@;
    assert(start =~= Seq::empty().push(WriteStep::Check).push(writing(0, extra as int)));
    assert(start + extra_steps(0, extra as int) =~= start);
    let mut i: usize = 0;
    while i < extra
        invariant
            i <= extra,
            total == extra + 2,
            out@ == start + extra_steps(i as int, extra as int),
        decreases extra - i,
    {
        out.push(WriteStep::Check);
        out.push(WriteStep::Extra(i));
        out.push(WriteStep::Tell(ExportStage::Writing { done: i + 1, total }));
        assert(out@ =~= start + extra_steps(i + 1, extra as int));
        i += 1;
    }
    out.push(WriteStep::Check);
    out.push(WriteStep::Glb);
    out.push(WriteStep::Tell(ExportStage::Writing { done: extra + 1, total }));
    out.push(WriteStep::Report);
    out.push(WriteStep::Tell(ExportStage::Writing { done: extra + 2, total }));
    out
}

/// Every file beside the geometry has its step, before which the export can be cancelled, and no
/// step of them is that of the geometry or the report.
proof fn lemma_extra_steps(n: int, extra: int)
    requires
        0 <= n <= extra <= usize::MAX,
    ensures
        extra_steps(n, extra).len() == 3 * n,
        forall|k: int|
            0 <= k < n ==> {
                &&& (#[trigger] extra_steps(n, extra)[3 * k + 1]) == WriteStep::Extra(k as usize)
                &&& extra_steps(n, extra)[3 * k] == WriteStep::Check
            },
        forall|i: int|
            0 <= i < 3 * n ==> {
                &&& (#[trigger] extra_steps(n, extra)[i]) != WriteStep::Glb
                &&& extra_steps(n, extra)[i] != WriteStep::Report
            },
    decreases n,
{
    if n > 0 {
        lemma_extra_steps(n - 1, extra);
        let before = extra_steps(n - 1, extra);
        let now = extra_steps(n, extra);
        assert forall|k: int| 0 <= k < n implies {
            &&& (#[trigger] now[3 * k + 1]) == WriteStep::Extra(k as usize)
            &&& now[3 * k] == WriteStep::Check
        } by {
            if k < n - 1 {
                assert(now[3 * k + 1] == before[3 * k + 1]);
                assert(now[3 * k] == before[3 * k]);
            }
        }
        assert forall|i: int| 0 <= i < 3 * n implies {
            &&& (#[trigger] now[i]) != WriteStep::Glb
            &&& now[i] != WriteStep::Report
        } by {
            if i < 3 * (n - 1) {
                assert(now[i] == before[i]);
            }
        }
    }
}

/// The report is written once, and after everything else: each file beside the geometry and the
/// geometry itself come before it. So an export that is cancelled or fails part of the way has no
/// report.
pub proof fn the_report_is_written_last(extra: int, k: int)
    requires
        0 <= k < extra,
        extra + 2 <= usize::MAX,
    ensures
        ({
            let s = steps_of(extra);
            let n = s.len() as int;
            &&& s[n - 2] == WriteStep::Report
            &&& forall|i: int| 0 <= i < n && i != n - 2 ==> #[trigger] s[i] != WriteStep::Report
            &&& s[n - 4] == WriteStep::Glb
            &&& s[2 + 3 * k + 1] == WriteStep::Extra(k as usize)
            &&& s[2 + 3 * k] == WriteStep::Check
            &&& 2 + 3 * k + 1 < n - 4
        }),
{
    lemma_extra_steps(extra, extra);
    let s = steps_of(extra);
    let middle = extra_steps(extra, extra);
    let start = Seq::empty().push(WriteStep::Check).push(writing(0, extra));
    let n = s.len() as int;
    assert(n == 3 * extra + 7);
    assert forall|i: int| 0 <= i < n && i != n - 2 implies #[trigger] s[i] != WriteStep::Report by {
        if 2 <= i < 2 + 3 * extra {
            assert(s[i] == middle[i - 2]);
        }
    }
    assert(s[2 + 3 * k + 1] == middle[3 * k + 1]);
    assert(s[2 + 3 * k] == middle[3 * k]);
}

/// What was asked for before: by path, either nothing, or the number of what was found.
#[derive(Debug)]
pub struct Seen {
    known: Table<Option<usize>>,
    count: usize,
}

/// A [`Seen`] as plain values.
pub struct SeenView {
    pub known: Map<Seq<char>, Option<usize>>,
    pub count: int,
}

impl View for Seen {
    type V = SeenView;

    closed spec fn view(&self) -> SeenView {
        SeenView { known: self.known@, count: self.count as int }
    }
}

/// Nothing was asked for.
pub open spec fn nothing_seen() -> SeenView {
    SeenView { known: Map::empty(), count: 0 }
}

/// What is known after something was asked for: things that are found are numbered in order.
pub open spec fn after_asking(s: SeenView, path: Seq<char>, found: bool) -> SeenView {
    if found {
        SeenView { known: s.known.insert(path, Some(s.count as usize)), count: s.count + 1 }
    } else {
        SeenView { known: s.known.insert(path, None), count: s.count }
    }
}

impl Seen {
    /// Nothing was asked for.
    pub fn new() -> (r: Seen)
        ensures
            r@ == nothing_seen(),
    {
        Seen { known: Table::new(), count: 0 }
    }

    /// What is known of a path: nothing, that nothing is there, or the number of what is there.
    pub fn find(&self, path: &str) -> (r: Option<Option<usize>>)
        ensures
            r == crate::table::named(self@.known, path@),
    {
        match self.known.get(path) {
            Some(v) => Some(*v),
            None => None,
        }
    }

    /// Takes down whether something is there, and gives its number where it is.
    pub fn note(&mut self, path: &str, found: bool) -> (r: Option<usize>)
        requires
            old(self)@.count < usize::MAX,
        ensures
            final(self)@ == after_asking(old(self)@, path@, found),
            r == (if found {
                Some(old(self)@.count as usize)
            } else {
                None
            }),
    {
        if found {
            let n: usize = self.count;
            self.known.insert(path.to_owned(), Some(n));
            self.count = n + 1;
            Some(n)
        } else {
            self.known.insert(path.to_owned(), None);
            None
        }
    }
}

/// What was asked for once need not be asked for again, and what was known before stays known.
pub proof fn answers_are_kept(s: SeenView, path: Seq<char>, found: bool, other: Seq<char>)
    ensures
        crate::table::named(after_asking(s, path, found).known, path) is Some,
        other != path ==> crate::table::named(after_asking(s, path, found).known, other)
            == crate::table::named(s.known, other),
{
}

/// A mesh of the document that instances share.
#[derive(Debug, Clone, Copy)]
pub struct SharedMesh {
    pub mesh: u32,
    /// Whether its positions are in steps from a centre, and which.
    pub on_grid: bool,
    pub center: (i64, i64, i64),
}

/// A shared mesh, by the draw call and the material that it is of.
#[derive(Debug)]
pub struct SharedEntry {
    pub key: String,
    pub index: usize,
    pub overlay: bool,
    pub material: u32,
    pub shared: SharedMesh,
}

/// A [`SharedEntry`] as plain values.
pub struct SharedView {
    pub key: Seq<char>,
    pub index: usize,
    pub overlay: bool,
    pub material: u32,
    pub shared: SharedMesh,
}

impl View for SharedEntry {
    type V = SharedView;

    open spec fn view(&self) -> SharedView {
        SharedView {
            key: self.key@,
            index: self.index,
            overlay: self.overlay,
            material: self.material,
            shared: self.shared,
        }
    }
}

/// The geometry of a draw call that is lit by probes: instances share it, and each has its own
/// light.
#[derive(Debug)]
pub struct ProbeEntry {
    pub key: String,
    pub index: usize,
    pub overlay: bool,
    pub geometry: BuiltGeometry,
    pub center: (i64, i64, i64),
}

/// A [`ProbeEntry`] as plain values.
pub struct ProbeView {
    pub key: Seq<char>,
    pub index: usize,
    pub overlay: bool,
    pub geometry: BuiltGeometry,
    pub center: (i64, i64, i64),
}

impl View for ProbeEntry {
    type V = ProbeView;

    open spec fn view(&self) -> ProbeView {
        ProbeView {
            key: self.key@,
            index: self.index,
            overlay: self.overlay,
            geometry: self.geometry,
            center: self.center,
        }
    }
}

/// A material of the document, by the path and the tint that it is of.
#[derive(Debug)]
pub struct MaterialEntry {
    pub path: String,
    pub tint: [u8; 4],
    pub material: u32,
}

/// A [`MaterialEntry`] as plain values.
pub struct MaterialView {
    pub path: Seq<char>,
    pub tint: Seq<u8>,
    pub material: u32,
}

impl View for MaterialEntry {
    type V = MaterialView;

    open spec fn view(&self) -> MaterialView {
        MaterialView { path: self.path@, tint: self.tint@, material: self.material }
    }
}

/// The views of a list of shared meshes.
pub open spec fn shared_views(v: Seq<SharedEntry>) -> Seq<SharedView> {
    Seq::new(v.len(), |i: int| v[i]@)
}

/// The views of a list of geometries.
pub open spec fn probe_views(v: Seq<ProbeEntry>) -> Seq<ProbeView> {
    Seq::new(v.len(), |i: int| v[i]@)
}

/// The views of a list of materials.
pub open spec fn entry_views(v: Seq<MaterialEntry>) -> Seq<MaterialView> {
    Seq::new(v.len(), |i: int| v[i]@)
}

/// A material as it is read, and what it amounts to.
#[derive(Debug)]
pub struct KnownMaterial {
    pub raw: RawMaterial,
    pub resolved: ResolvedMaterial,
}

/// A [`KnownMaterial`] as plain values.
pub struct KnownView {
    pub raw: RawView,
    pub resolved: ResolvedView,
}

impl View for KnownMaterial {
    type V = KnownView;

    open spec fn view(&self) -> KnownView {
        KnownView { raw: self.raw@, resolved: self.resolved@ }
    }
}

/// A material, with what it amounts to.
pub open spec fn known_of(raw: RawView) -> KnownView {
    KnownView { raw, resolved: crate::material::resolved(raw) }
}

/// The views of materials by path.
pub open spec fn known_views(m: Map<Seq<char>, Option<KnownMaterial>>) -> Map<
    Seq<char>,
    Option<KnownView>,
> {
    m.map_values(|k: Option<KnownMaterial>| crate::material::opt_view(k))
}

/// What is known of the material at a path: nothing, that there is none, or the material.
pub open spec fn material_at(m: Map<Seq<char>, Option<KnownView>>, path: Seq<char>) -> Option<
    Option<KnownView>,
> {
    crate::table::named(m, path)
}

/// Whether the material at a path is known, and whether it is for tools.
pub open spec fn is_known_as(
    m: Map<Seq<char>, Option<KnownView>>,
    path: Seq<char>,
    tools: bool,
) -> bool {
    material_at(m, path) matches Some(Some(k)) && crate::material::is_tools(k.raw) == tools
}

/// An export on its way.
#[derive(Debug)]
pub struct Ctx {
    pub builder: GltfBuilder,
    pub catalog: TextureCatalog,
    pub report: Report,
    pub models: Seen,
    /// By path; none where there is no such material.
    pub materials: Table<Option<KnownMaterial>>,
    pub gltf_materials: Vec<MaterialEntry>,
    pub meshes: Vec<SharedEntry>,
    pub probe_geometries: Vec<ProbeEntry>,
}

/// A [`Ctx`] as plain values.
pub struct CtxView {
    pub builder: BuilderView,
    pub catalog: CatalogView,
    pub report: ReportView,
    pub models: SeenView,
    pub materials: Map<Seq<char>, Option<KnownView>>,
    pub gltf_materials: Seq<MaterialView>,
    pub meshes: Seq<SharedView>,
    pub probe_geometries: Seq<ProbeView>,
}

impl View for Ctx {
    type V = CtxView;

    open spec fn view(&self) -> CtxView {
        CtxView {
            builder: self.builder@,
            catalog: self.catalog@,
            report: self.report@,
            models: self.models@,
            materials: known_views(self.materials@),
            gltf_materials: entry_views(self.gltf_materials@),
            meshes: shared_views(self.meshes@),
            probe_geometries: probe_views(self.probe_geometries@),
        }
    }
}

/// An export that has not begun.
pub open spec fn empty_ctx() -> CtxView {
    CtxView {
        builder: crate::gltf::empty_builder(),
        catalog: crate::native_texture::empty_catalog(),
        report: crate::report::empty_report(),
        models: nothing_seen(),
        materials: Map::empty(),
        gltf_materials: Seq::empty(),
        meshes: Seq::empty(),
        probe_geometries: Seq::empty(),
    }
}

/// Whether the accessors of a geometry are there.
pub open spec fn is_there(b: BuilderView, g: BuiltGeometry) -> bool {
    let n = b.accessors.len();
    &&& g.position < n
    &&& g.normal < n
    &&& g.uv0 < n
    &&& g.indices < n
    &&& g.uv1 matches Some(i) ==> i < n
    &&& g.blend matches Some(i) ==> i < n
}

/// Whether no material of the document stands twice: each is of another path or another tint.
pub open spec fn entries_differ(v: Seq<MaterialView>) -> bool {
    forall|i: int, j: int|
        0 <= i < j < v.len() ==> {
            &&& (#[trigger] v[i]).path != (#[trigger] v[j]).path || v[i].tint != v[j].tint
            &&& v[i].material != v[j].material
        }
}

/// Whether materials are known as what they amount to, those that were drawn as not for tools, and
/// those that were left out as for tools.
pub open spec fn are_sorted_out(
    m: Map<Seq<char>, Option<KnownView>>,
    drawn: Seq<(Seq<char>, u64)>,
    dropped: Seq<(Seq<char>, ToolsDrop)>,
) -> bool {
    &&& forall|path: Seq<char>|
        #![trigger material_at(m, path)]
        material_at(m, path) matches Some(Some(k)) ==> k == known_of(k.raw)
    &&& forall|path: Seq<char>| #[trigger]
        crate::report::has_name(drawn, path) ==> is_known_as(m, path, false)
    &&& forall|path: Seq<char>| #[trigger]
        crate::report::has_name(dropped, path) ==> is_known_as(m, path, true)
}

/// What holds of every export on its way: its document, its textures and its report are sound, what
/// it keeps of the document is there, no material of it twice, and of the materials that it knows
/// only those that are not for tools were drawn, and only those that are were left out.
pub open spec fn sound(c: CtxView) -> bool {
    &&& crate::gltf::sound(c.builder)
    &&& crate::native_texture::sound(c.catalog)
    &&& crate::report::sound(c.report)
    &&& forall|i: int|
        0 <= i < c.gltf_materials.len() ==> (#[trigger] c.gltf_materials[i]).material
            < c.builder.materials.len()
    &&& forall|i: int|
        0 <= i < c.meshes.len() ==> (#[trigger] c.meshes[i]).shared.mesh < c.builder.meshes.len()
    &&& forall|i: int|
        0 <= i < c.probe_geometries.len() ==> is_there(
            c.builder,
            (#[trigger] c.probe_geometries[i]).geometry,
        )
    &&& are_sorted_out(c.materials, c.report.per_material, c.report.tools_dropped)
    &&& entries_differ(c.gltf_materials)
}

/// The document's material for a path and a tint, from `from` on.
pub open spec fn material_from(v: Seq<MaterialView>, path: Seq<char>, tint: Seq<u8>, from: int) -> Option<
    u32,
>
    decreases v.len() - from,
{
    if from < 0 || from >= v.len() {
        None
    } else if v[from].path == path && v[from].tint == tint {
        Some(v[from].material)
    } else {
        material_from(v, path, tint, from + 1)
    }
}

/// The shared mesh of a draw call, from `from` on.
pub open spec fn shared_from(
    v: Seq<SharedView>,
    key: Seq<char>,
    index: usize,
    overlay: bool,
    material: u32,
    from: int,
) -> Option<SharedMesh>
    decreases v.len() - from,
{
    if from < 0 || from >= v.len() {
        None
    } else if v[from].key == key && v[from].index == index && v[from].overlay == overlay
        && v[from].material == material {
        Some(v[from].shared)
    } else {
        shared_from(v, key, index, overlay, material, from + 1)
    }
}

/// The number of the geometry of a draw call that is lit by probes, from `from` on.
pub open spec fn probe_from(
    v: Seq<ProbeView>,
    key: Seq<char>,
    index: usize,
    overlay: bool,
    from: int,
) -> Option<usize>
    decreases v.len() - from,
{
    if from < 0 || from >= v.len() {
        None
    } else if v[from].key == key && v[from].index == index && v[from].overlay == overlay {
        Some(from as usize)
    } else {
        probe_from(v, key, index, overlay, from + 1)
    }
}

/// The triangles of a draw call.
pub open spec fn triangles_of(index_count: i64) -> u64 {
    if index_count > 0 {
        (index_count / 3) as u64
    } else {
        0
    }
}

/// The triangles of a draw call.
pub fn triangle_count(dc: &DrawCall) -> (r: u64)
    ensures
        r == triangles_of(dc.index_count),
{
    if dc.index_count > 0 {
        (dc.index_count as u64) / 3
    } else {
        0
    }
}

/// The sum of triangles.
pub open spec fn sum_of(v: Seq<u64>) -> int
    decreases v.len(),
{
    if v.len() == 0 {
        0
    } else {
        sum_of(v.drop_last()) + v.last()
    }
}

/// The start of a list has no more triangles than the whole.
proof fn lemma_sum_of(v: Seq<u64>, n: int)
    requires
        0 <= n <= v.len(),
    ensures
        0 <= sum_of(v.take(n)) <= sum_of(v),
    decreases v.len(),
{
    if n == v.len() {
        assert(v.take(n) =~= v);
        if n > 0 {
            lemma_sum_of(v.drop_last(), n - 1);
        }
    } else {
        lemma_sum_of(v.drop_last(), n);
        assert(v.drop_last().take(n) =~= v.take(n));
    }
}

/// The triangles of what was drawn; none where they cannot be counted.
pub fn sum_triangles(drawn: &Vec<u64>) -> (r: Option<u64>)
    ensures
        r == (if sum_of(drawn@) <= u64::MAX {
            Some(sum_of(drawn@) as u64)
        } else {
            None
        }),
{
    let mut total: u64 = 0;
    let mut i: usize = 0;
    while i < drawn.len()
        invariant
            i <= drawn@.len(),
            total == sum_of(drawn@.take(i as int)),
        decreases drawn@.len() - i,
    {
        proof {
            let part = drawn@.take(i + 1);
            assert(part.drop_last() =~= drawn@.take(i as int));
            assert(part.last() == drawn@[i as int]);
            lemma_sum_of(drawn@, i + 1);
        }
        match total.checked_add(drawn[i]) {
            Some(t) => {
                total = t;
            },
            None => {
                return None;
            },
        }
        i += 1;
    }
    assert(drawn@.take(i as int) =~= drawn@);
    Some(total)
}

/// Whether the vertices of a material have a weight for a second layer.
pub open spec fn has_second_layer(r: ResolvedView) -> bool {
    r.layers is Some || r.env_layer2 is Some
}

/// Whether the vertices of a material have a weight for a second layer.
pub fn needs_blend(resolved: &ResolvedMaterial) -> (r: bool)
    ensures
        r == has_second_layer(resolved@),
{
    resolved.layers.is_some() || resolved.env_layer2.is_some()
}

/// What a draw call needs next.
#[derive(Debug, Clone, Copy)]
pub enum MeshStep {
    /// Nothing: the document has its mesh.
    Shared(SharedMesh),
    /// Its light: the document has its geometry, by number.
    Probe(usize),
    /// Its geometry.
    Build,
}

/// What a draw call needs next.
pub open spec fn step_of(
    c: CtxView,
    key: Seq<char>,
    index: usize,
    overlay: bool,
    material: u32,
    lighting: LightingClass,
) -> MeshStep {
    if lighting == LightingClass::Probe {
        match probe_from(c.probe_geometries, key, index, overlay, 0) {
            Some(i) => MeshStep::Probe(i),
            None => MeshStep::Build,
        }
    } else {
        match shared_from(c.meshes, key, index, overlay, material, 0) {
            Some(s) => MeshStep::Shared(s),
            None => MeshStep::Build,
        }
    }
}

/// What becomes of a draw call.
#[derive(Debug, Clone, Copy)]
pub enum DrawStep {
    /// Its material is not known yet: it waits for the resource.
    Fetch,
    /// It is left out: there is no such material.
    Missing,
    /// It is left out: its material is only for tools.
    Dropped,
    /// The document does not have its material yet: it waits for that.
    Material,
    /// It is drawn, and counted as such. Its geometry, where it is to be built, has coordinates in
    /// the lightmap and weights of a second layer as is said here.
    Drawn {
        material: u32,
        lighting: LightingClass,
        triangles: u64,
        needs_uv1: bool,
        needs_blend: bool,
        step: MeshStep,
    },
}

/// An export after a draw call was asked about, and what becomes of the draw call.
pub open spec fn drawn_of(
    c: CtxView,
    key: Seq<char>,
    index: usize,
    overlay: bool,
    mesh: MeshView,
    dc: DrawCallView,
    path: Seq<char>,
    tint: Seq<u8>,
) -> (CtxView, DrawStep) {
    let triangles = triangles_of(dc.index_count);
    match material_at(c.materials, path) {
        None => (c, DrawStep::Fetch),
        Some(None) => (c, DrawStep::Missing),
        Some(Some(k)) => if crate::material::is_tools(k.raw) {
            (
                CtxView {
                    report: crate::report::after_tools_drop(c.report, path, triangles),
                    ..c
                },
                DrawStep::Dropped,
            )
        } else {
            match material_from(c.gltf_materials, path, tint, 0) {
                None => (c, DrawStep::Material),
                Some(material) => {
                    let lighting = crate::geometry::lighting_of(mesh, dc, k.resolved.unlit);
                    (
                        CtxView {
                            report: crate::report::after_draw(
                                c.report,
                                path,
                                triangles,
                                lighting,
                            ),
                            ..c
                        },
                        DrawStep::Drawn {
                            material,
                            lighting,
                            triangles,
                            needs_uv1: lighting == LightingClass::Lightmap,
                            needs_blend: has_second_layer(k.resolved),
                            step: step_of(c, key, index, overlay, material, lighting),
                        },
                    )
                },
            }
        },
    }
}

/// What is there of a material that was asked for.
pub open spec fn fetched_material(path: Seq<char>, fetched: Option<&Resource>) -> Result<
    RawView,
    Seq<char>,
> {
    crate::place::loaded_or(
        path,
        "failed to decode material"@,
        match fetched {
            None => None,
            Some(resource) => Some(crate::place::material_of(*resource, path)),
        },
    )
}

/// An export that knows of a material more. What is known already stays as it is.
pub open spec fn after_known(c: CtxView, path: Seq<char>, raw: Option<RawView>) -> CtxView {
    match material_at(c.materials, path) {
        Some(_) => c,
        None => CtxView {
            materials: c.materials.insert(
                path,
                match raw {
                    Some(raw) => Some(known_of(raw)),
                    None => None,
                },
            ),
            ..c
        },
    }
}

/// An export after the resource of a material was handed to it. Where it holds no material, the
/// report says why.
pub open spec fn after_fetch(c: CtxView, path: Seq<char>, fetched: Option<&Resource>) -> CtxView {
    match material_at(c.materials, path) {
        Some(_) => c,
        None => match fetched_material(crate::source::compiled(path), fetched) {
            Ok(raw) => after_known(c, path, Some(raw)),
            Err(m) => after_known(
                CtxView { report: crate::place::with_message(c.report, m), ..c },
                path,
                None,
            ),
        },
    }
}

/// Whether the counts of a report have room for a draw call, whatever becomes of it.
pub open spec fn has_room_to_draw(r: ReportView, path: Seq<char>, triangles: u64) -> bool {
    let d = crate::report::value_or(r.tools_dropped, path, crate::report::no_drop());
    &&& d.draw_calls < u32::MAX
    &&& d.triangles + triangles <= u64::MAX
    &&& crate::report::can_draw(r.counts, triangles)
}

/// A draw call whose material is not known does not wait for the resource twice.
pub proof fn a_resource_is_waited_for_once(
    c: CtxView,
    key: Seq<char>,
    index: usize,
    overlay: bool,
    mesh: MeshView,
    dc: DrawCallView,
    path: Seq<char>,
    tint: Seq<u8>,
    fetched: Option<&Resource>,
)
    ensures
        drawn_of(after_fetch(c, path, fetched), key, index, overlay, mesh, dc, path, tint).1
            != DrawStep::Fetch,
{
}

/// A draw call that waits for its material is drawn, with that material, once the document has it.
pub proof fn a_material_is_waited_for_once(
    c: CtxView,
    key: Seq<char>,
    index: usize,
    overlay: bool,
    mesh: MeshView,
    dc: DrawCallView,
    path: Seq<char>,
    tint: Seq<u8>,
    inputs: MaterialInputs,
    loads: Seq<Option<Loaded>>,
)
    requires
        drawn_of(c, key, index, overlay, mesh, dc, path, tint).1 is Material,
    ensures
        ({
            let after = after_material(c, path, tint, inputs, loads);
            let next = drawn_of(after, key, index, overlay, mesh, dc, path, tint).1;
            next is Drawn && next->material == c.builder.materials.len() as u32
        }),
{
    let entry = MaterialView { path, tint, material: c.builder.materials.len() as u32 };
    lemma_material_pushed(c.gltf_materials, entry, 0);
}

/// Where a material is not found, none is of this path and this tint.
proof fn lemma_material_missing(v: Seq<MaterialView>, path: Seq<char>, tint: Seq<u8>, from: int)
    requires
        0 <= from <= v.len(),
        material_from(v, path, tint, from) is None,
    ensures
        forall|i: int|
            from <= i < v.len() ==> (#[trigger] v[i]).path != path || v[i].tint != tint,
    decreases v.len() - from,
{
    if from < v.len() {
        lemma_material_missing(v, path, tint, from + 1);
    }
}

/// What else is put behind the others does not change what is found.
proof fn lemma_other_pushed(
    v: Seq<MaterialView>,
    entry: MaterialView,
    path: Seq<char>,
    tint: Seq<u8>,
    from: int,
)
    requires
        0 <= from <= v.len(),
        entry.path != path || entry.tint != tint,
    ensures
        material_from(v.push(entry), path, tint, from) == material_from(v, path, tint, from),
    decreases v.len() - from,
{
    let more = v.push(entry);
    if from < v.len() {
        assert(more[from] == v[from]);
        lemma_other_pushed(v, entry, path, tint, from + 1);
    } else {
        assert(more[from] == entry);
        assert(material_from(more, path, tint, from + 1) is None);
    }
}

/// A material that the document has under a tint is handed out again: whatever is asked about a draw
/// call under that tint adds no material and no texture, and where the material is not for tools the
/// draw call is drawn with it.
pub proof fn a_material_is_reused(
    c: CtxView,
    key: Seq<char>,
    index: usize,
    overlay: bool,
    mesh: MeshView,
    dc: DrawCallView,
    path: Seq<char>,
    tint: Seq<u8>,
)
    ensures
        ({
            let (after, step) = drawn_of(c, key, index, overlay, mesh, dc, path, tint);
            &&& after.builder == c.builder
            &&& after.catalog == c.catalog
            &&& after.gltf_materials == c.gltf_materials
            &&& is_known_as(c.materials, path, false) ==> match material_from(
                c.gltf_materials,
                path,
                tint,
                0,
            ) {
                Some(k) => step is Drawn && step->material == k,
                None => step == DrawStep::Material,
            }
        }),
{
}

/// A material under a tint that the document does not have gets an index that no other has. It is
/// found under its own path and tint from then on, and what is found under any other stays.
pub proof fn a_new_tint_gets_a_new_material(
    c: CtxView,
    path: Seq<char>,
    tint: Seq<u8>,
    inputs: MaterialInputs,
    loads: Seq<Option<Loaded>>,
    other_path: Seq<char>,
    other_tint: Seq<u8>,
)
    requires
        sound(c),
        crate::gltf::has_space(c.builder),
        material_from(c.gltf_materials, path, tint, 0) is None,
    ensures
        ({
            let after = after_material(c, path, tint, inputs, loads);
            let k = c.builder.materials.len() as u32;
            &&& material_from(after.gltf_materials, path, tint, 0) == Some(k)
            &&& after.builder.materials.len() == c.builder.materials.len() + 1
            &&& forall|i: int|
                0 <= i < c.gltf_materials.len() ==> (#[trigger] c.gltf_materials[i]).material != k
            &&& other_path != path || other_tint != tint ==> material_from(
                after.gltf_materials,
                other_path,
                other_tint,
                0,
            ) == material_from(c.gltf_materials, other_path, other_tint, 0)
        }),
{
    let entry = MaterialView { path, tint, material: c.builder.materials.len() as u32 };
    lemma_material_pushed(c.gltf_materials, entry, 0);
    if other_path != path || other_tint != tint {
        lemma_other_pushed(c.gltf_materials, entry, other_path, other_tint, 0);
    }
}

/// A material that was not there is found once it is put behind the others.
proof fn lemma_material_pushed(v: Seq<MaterialView>, entry: MaterialView, from: int)
    requires
        0 <= from <= v.len(),
        material_from(v, entry.path, entry.tint, from) is None,
    ensures
        material_from(v.push(entry), entry.path, entry.tint, from) == Some(entry.material),
    decreases v.len() - from,
{
    let more = v.push(entry);
    if from < v.len() {
        assert(more[from] == v[from]);
        lemma_material_pushed(v, entry, from + 1);
    } else {
        assert(more[from] == entry);
    }
}

/// Whether the class of an entity has room to count it.
pub open spec fn has_room_to_count(r: ReportView, e: Entity, outcome: Outcome) -> bool {
    crate::report::can_count(
        crate::report::value_or(
            r.class_stats,
            crate::entity::class_of(e),
            crate::report::no_stats(),
        ),
        outcome,
    )
}

/// What became of an entity that was to be placed.
pub open spec fn outcome_of(drawn: Option<u64>) -> Outcome {
    match drawn {
        Some(n) => Outcome::Placed(n),
        None => Outcome::NotFound,
    }
}

/// An export that has counted an entity.
pub open spec fn after_entity(c: CtxView, e: Entity, outcome: Outcome) -> CtxView {
    CtxView {
        report: crate::report::after_entity(
            c.report,
            crate::entity::class_of(e),
            crate::entity::target_of(e),
            crate::lumps::model_of(e),
            outcome,
        ),
        ..c
    }
}

/// What is counted of entities, one after the other: of each that has a class, the class and what
/// became of it. `drawn` holds what the models of those that were placed drew.
pub open spec fn tallies(v: Seq<Entity>, drawn: Seq<Option<u64>>) -> Seq<(Seq<char>, Outcome)>
    decreases v.len(),
{
    if v.len() == 0 {
        Seq::empty()
    } else {
        let before = tallies(v.drop_last(), drawn.drop_last());
        let class = crate::entity::class_of(v.last());
        match crate::lumps::step_of(v.last()) {
            EntityStepView::Nothing => before,
            EntityStepView::Leave(outcome) => before.push((class, outcome)),
            EntityStepView::Place(_) => before.push((class, outcome_of(drawn.last()))),
        }
    }
}

/// How many entities are of a class.
pub open spec fn entities_of(v: Seq<Entity>, class: Seq<char>) -> int
    decreases v.len(),
{
    if v.len() == 0 {
        0
    } else if crate::entity::class_of(v.last()) == class {
        entities_of(v.drop_last(), class) + 1
    } else {
        entities_of(v.drop_last(), class)
    }
}

/// Of each class that has a name, as many entities are tallied as there are.
proof fn lemma_tallies(v: Seq<Entity>, drawn: Seq<Option<u64>>, class: Seq<char>)
    requires
        class.len() > 0,
    ensures
        crate::report::of_class(tallies(v, drawn), class) == entities_of(v, class),
    decreases v.len(),
{
    if v.len() > 0 {
        lemma_tallies(v.drop_last(), drawn.drop_last(), class);
        let before = tallies(v.drop_last(), drawn.drop_last());
        let after = tallies(v, drawn);
        if after.len() > before.len() {
            assert(after.drop_last() =~= before);
        }
    }
}

/// Whatever becomes of the entities of a lump, the total of each class that has a name grows by
/// exactly the number of the lump's entities of that class, and of each class every entity that has
/// a model was drawn or left out for one reason.
pub proof fn a_lump_counts_by_class(
    c: CtxView,
    lump: EntityLump,
    drawn: Seq<Option<u64>>,
    class: Seq<char>,
)
    requires
        sound(c),
        class.len() > 0,
        drawn.len() == lump.entities@.len(),
        crate::report::can_count_all(c.report.class_stats, tallies(lump.entities@, drawn)),
    ensures
        ({
            let before = c.report.class_stats;
            let after = crate::report::counted_all(before, tallies(lump.entities@, drawn));
            let none = crate::report::no_stats();
            &&& crate::report::value_or(after, class, none).total == crate::report::value_or(
                before,
                class,
                none,
            ).total + entities_of(lump.entities@, class)
            &&& forall|i: int|
                0 <= i < after.len() ==> crate::report::settled((#[trigger] after[i]).1)
        }),
{
    crate::report::entities_count_by_class(
        c.report.class_stats,
        tallies(lump.entities@, drawn),
        class,
    );
    lemma_tallies(lump.entities@, drawn, class);
}

/// Entity by entity the counts of an export stay what the tallies of the entities so far give,
/// whatever is drawn of an entity between its beginning and its end. `start` holds the classes
/// before the first of them.
pub proof fn counts_keep_up_with_tallies(
    start: Seq<(Seq<char>, ClassStats)>,
    v: Seq<Entity>,
    drawn: Seq<Option<u64>>,
    c: CtxView,
    meanwhile: CtxView,
    e: Entity,
    of_e: Option<u64>,
)
    requires
        v.len() == drawn.len(),
        c.report.class_stats == crate::report::counted_all(start, tallies(v, drawn)),
        meanwhile.report.class_stats == c.report.class_stats,
    ensures
        ({
            let stats = crate::report::counted_all(start, tallies(v.push(e), drawn.push(of_e)));
            match crate::lumps::step_of(e) {
                EntityStepView::Nothing => c.report.class_stats == stats,
                EntityStepView::Leave(outcome) => after_entity(c, e, outcome).report.class_stats
                    == stats,
                EntityStepView::Place(_) => after_entity(
                    meanwhile,
                    e,
                    outcome_of(of_e),
                ).report.class_stats == stats,
            }
        }),
{
    assert(v.push(e).drop_last() =~= v);
    assert(drawn.push(of_e).drop_last() =~= drawn);
    let before = tallies(v, drawn);
    let after = tallies(v.push(e), drawn.push(of_e));
    if after.len() > before.len() {
        assert(after.drop_last() =~= before);
    }
}

/// The message for a draw call whose geometry cannot be had.
pub open spec fn draw_fault_text(key: Seq<char>, index: int, why: Seq<char>) -> Seq<char> {
    key + "#"@ + crate::text::decimal_text(index) + ": "@ + why
}

/// A single is a number.
pub open spec fn is_number(bits: u32, number: u32) -> bool {
    !crate::bits::f32_nan(bits) && crate::bits::f32_place(bits) == crate::bits::f32_place(number)
}

/// Whether a transform leaves everything where it is.
pub open spec fn is_identity(t: Seq<u32>) -> bool {
    forall|i: int|
        0 <= i < 12 ==> is_number(#[trigger] t[i], IDENTITY_TRANSFORM@[i])
}

/// Whether a transform leaves everything where it is.
fn leaves_in_place(t: &Transform) -> (r: bool)
    ensures
        r == is_identity(t@),
{
    let identity: Transform = IDENTITY_TRANSFORM;
    let mut i: usize = 0;
    while i < 12
        invariant
            i <= 12,
            identity == IDENTITY_TRANSFORM,
            forall|k: int| 0 <= k < i ==> is_number(#[trigger] t@[k], IDENTITY_TRANSFORM@[k]),
        decreases 12 - i,
    {
        let is_one: bool = identity[i] == F32_ONE;
        assert(identity@[i as int] == F32_ONE || identity@[i as int] == 0);
        let same_number: bool = if is_one {
            crate::bits::f32_le(t[i], F32_ONE) && crate::bits::f32_le(F32_ONE, t[i])
        } else {
            crate::bits::f32_is_zero(t[i])
        };
        if !same_number {
            assert(!is_number(t@[i as int], IDENTITY_TRANSFORM@[i as int]));
            return false;
        }
        i += 1;
    }
    true
}

/// An instance of a mesh, as a document.
pub open spec fn instance_json(
    name: Option<Seq<char>>,
    mesh: u32,
    transform: Seq<u32>,
    order: Option<i64>,
    handshake: i64,
) -> JsonView {
    let m = match name {
        Some(n) => crate::json::empty().push(("name"@, JsonView::Str(n))),
        None => crate::json::empty(),
    };
    let m = m.push(("mesh"@, JsonView::UInt(mesh as u64)));
    let m = if is_identity(transform) {
        m
    } else {
        m.push(
            (
                "matrix"@,
                JsonView::Array(crate::json::floats(crate::gltf::matrix_of(transform))),
            ),
        )
    };
    let extras = match order {
        Some(o) => crate::json::empty().push(("overlayOrder"@, JsonView::Int(o))),
        None => crate::json::empty(),
    };
    let extras = if handshake != 0 {
        extras.push(("lightProbeHandshake"@, JsonView::Int(handshake)))
    } else {
        extras
    };
    JsonView::Object(
        if extras.len() > 0 {
            m.push(("extras"@, JsonView::Object(extras)))
        } else {
            m
        },
    )
}

/// An optional text that is lent.
pub open spec fn opt_lent(s: Option<&str>) -> Option<Seq<char>> {
    match s {
        Some(s) => Some(s@),
        None => None,
    }
}

/// An instance of a mesh, as a document.
fn write_instance(
    name: Option<&str>,
    mesh: u32,
    transform: &Transform,
    order: Option<i64>,
    handshake: i64,
) -> (r: Json)
    ensures
        r@ == instance_json(opt_lent(name), mesh, transform@, order, handshake),
{
    let mut m: Members = Members::new();
    match name {
        Some(n) => {
            m.put_text("name", n);
        },
        None => {},
    }
    m.put_uint("mesh", mesh as u64);
    if !leaves_in_place(transform) {
        let matrix: [u32; 16] = node_matrix(transform);
        m.put_singles("matrix", matrix.as_slice());
    }
    let mut extras: Members = Members::new();
    match order {
        Some(o) => {
            extras.put_int("overlayOrder", o);
        },
        None => {},
    }
    if handshake != 0 {
        extras.put_int("lightProbeHandshake", handshake);
    }
    if !extras.is_empty() {
        m.put_object("extras", extras);
    }
    m.object()
}

/// A group of nodes, as a document.
pub open spec fn group_json(name: Seq<char>, children: Seq<u32>) -> JsonView {
    JsonView::Object(
        crate::json::empty().push(("name"@, JsonView::Str(name))).push(
            ("children"@, JsonView::Array(crate::gltf::indices_json(children))),
        ),
    )
}

/// The light of each vertex: dark where none could be read.
pub open spec fn lights_of(lpv: Seq<Option<[u16; 4]>>) -> Seq<[u16; 4]> {
    Seq::new(
        lpv.len(),
        |i: int|
            match lpv[i] {
                Some(v) => v,
                None => [0u16, 0u16, 0u16, 0u16],
            },
    )
}

/// How many vertices have no light.
pub open spec fn dark_count(lpv: Seq<Option<[u16; 4]>>) -> int
    decreases lpv.len(),
{
    if lpv.len() == 0 {
        0
    } else {
        dark_count(lpv.drop_last()) + if lpv.last() is None {
            1int
        } else {
            0
        }
    }
}

/// A document with the light of vertices more.
pub open spec fn with_lights(b: BuilderView, lights: Seq<[u16; 4]>) -> BuilderView {
    crate::gltf::with_attribute(
        b,
        crate::bytes::all_bytes16(crate::gltf::rows16(lights)),
        lights.len() as int,
        8,
        crate::gltf::COMPONENT_TYPE_UNSIGNED_SHORT,
        crate::gltf::Shape::Vec4,
        true,
        None,
    )
}

/// A document with a mesh more.
pub open spec fn with_mesh(b: BuilderView, mesh: JsonView) -> BuilderView {
    BuilderView { meshes: b.meshes.push(mesh), ..b }
}

/// A document with a node more.
pub open spec fn with_node(b: BuilderView, node: JsonView) -> BuilderView {
    BuilderView { nodes: b.nodes.push(node), ..b }
}

/// An export with a material more.
pub open spec fn after_material(
    c: CtxView,
    path: Seq<char>,
    tint: Seq<u8>,
    inputs: MaterialInputs,
    loads: Seq<Option<Loaded>>,
) -> CtxView {
    let resolved = material_at(c.materials, path)->Some_0->Some_0.resolved;
    let index = c.builder.materials.len() as u32;
    CtxView {
        builder: BuilderView {
            materials: c.builder.materials.push(
                crate::gltf_material::material_json(path, resolved, inputs, loads),
            ),
            ..c.builder
        },
        report: ReportView {
            material_extras: c.report.material_extras.push(
                (index, crate::gltf_material::extras_json(resolved, inputs, loads)),
            ),
            unlit_used: c.report.unlit_used || resolved.unlit,
            ..c.report
        },
        gltf_materials: c.gltf_materials.push(MaterialView { path, tint, material: index }),
        ..c
    }
}

/// An export with a geometry more: that of a draw call that is lit by probes is kept by itself,
/// that of any other becomes a mesh.
pub open spec fn after_geometry(
    c: CtxView,
    key: Seq<char>,
    index: usize,
    overlay: bool,
    material: u32,
    lighting: LightingClass,
    indices: Seq<u32>,
    s: Streams,
) -> (CtxView, MeshStep) {
    let g = crate::geometry::built_geometry(c.builder, indices, s);
    let b = crate::geometry::with_geometry(c.builder, indices, s);
    if lighting == LightingClass::Probe {
        (
            CtxView {
                builder: b,
                probe_geometries: c.probe_geometries.push(
                    ProbeView { key, index, overlay, geometry: g, center: s.center },
                ),
                ..c
            },
            MeshStep::Probe(c.probe_geometries.len() as usize),
        )
    } else {
        let shared = SharedMesh {
            mesh: b.meshes.len() as u32,
            on_grid: g.on_grid,
            center: s.center,
        };
        (
            CtxView {
                builder: with_mesh(
                    b,
                    crate::geometry::mesh_json(g, None, material, lighting),
                ),
                meshes: c.meshes.push(SharedView { key, index, overlay, material, shared }),
                ..c
            },
            MeshStep::Shared(shared),
        )
    }
}

/// An export with an instance more that is lit by probes.
pub open spec fn after_probe_instance(
    c: CtxView,
    geometry: BuiltGeometry,
    material: u32,
    lpv: Seq<Option<[u16; 4]>>,
    name: Option<Seq<char>>,
    transform: Seq<u32>,
    order: Option<i64>,
    handshake: i64,
) -> CtxView {
    let lit = with_lights(c.builder, lights_of(lpv));
    let b = with_mesh(
        lit,
        crate::geometry::mesh_json(
            geometry,
            Some(c.builder.accessors.len() as u32),
            material,
            LightingClass::Probe,
        ),
    );
    CtxView {
        builder: with_node(
            b,
            instance_json(name, c.builder.meshes.len() as u32, transform, order, handshake),
        ),
        report: ReportView {
            counts: crate::report::Counts {
                probe_sample_failures: (c.report.counts.probe_sample_failures + dark_count(
                    lpv,
                )) as u32,
                ..c.report.counts
            },
            ..c.report
        },
        ..c
    }
}

/// What a geometry does to a document beside its streams.
proof fn lemma_geometry(b: BuilderView, g: GeometryView, s: Streams, overlay: bool)
    requires
        crate::geometry::are_of(s, g, overlay),
        crate::geometry::can_take_streams(b, g.indices, s),
    ensures
        ({
            let after = crate::geometry::with_geometry(b, g.indices, s);
            &&& after.materials == b.materials
            &&& after.meshes == b.meshes
            &&& after.nodes == b.nodes
            &&& after.images == b.images
            &&& after.textures == b.textures
            &&& after.accessors.len() >= b.accessors.len()
            &&& after.accessors.len() <= b.accessors.len() + 6
            &&& after.buffer_views.len() <= b.buffer_views.len() + 6
            &&& is_there(after, crate::geometry::built_geometry(b, g.indices, s))
        }),
{
}

/// Whether an export can take an instance that is lit by probes and has `n` vertices.
pub open spec fn has_room_to_bake(c: CtxView, n: int) -> bool {
    &&& crate::gltf::can_take(c.builder, 8 * n)
    &&& c.builder.accessors.len() + 1 < u32::MAX
    &&& c.builder.buffer_views.len() + 1 < u32::MAX
    &&& c.builder.meshes.len() + 1 < u32::MAX
    &&& c.report.counts.probe_sample_failures + n <= u32::MAX
}

impl Ctx {
    /// An export that has not begun.
    pub fn new() -> (r: Ctx)
        ensures
            r@ == empty_ctx(),
            sound(r@),
    {
        let r: Ctx = Ctx {
            builder: GltfBuilder::new(),
            catalog: TextureCatalog::default(),
            report: Report::new(),
            models: Seen::new(),
            materials: Table::new(),
            gltf_materials: Vec::new(),
            meshes: Vec::new(),
            probe_geometries: Vec::new(),
        };
        proof {
            assert(r@.materials =~= empty_ctx().materials);
            assert(r@.gltf_materials =~= empty_ctx().gltf_materials);
            assert(r@.meshes =~= empty_ctx().meshes);
            assert(r@.probe_geometries =~= empty_ctx().probe_geometries);
        }
        r
    }

    /// The document's material for a path and a tint, where it has one.
    pub fn find_gltf_material(&self, path: &str, tint: &[u8; 4]) -> (r: Option<u32>)
        ensures
            r == material_from(self@.gltf_materials, path@, tint@, 0),
    {
        let ghost all = self@.gltf_materials;
        let mut i: usize = 0;
        while i < self.gltf_materials.len()
            invariant
                i <= self.gltf_materials@.len(),
                all == entry_views(self.gltf_materials@),
                material_from(all, path@, tint@, 0) == material_from(all, path@, tint@, i as int),
            decreases self.gltf_materials@.len() - i,
        {
            let e: &MaterialEntry = &self.gltf_materials[i];
            assert(all[i as int] == e@);
            let same_tint: bool = e.tint[0] == tint[0] && e.tint[1] == tint[1] && e.tint[2]
                == tint[2] && e.tint[3] == tint[3];
            assert(same_tint == (e.tint@ =~= tint@));
            if same_tint && same(e.path.as_str(), path) {
                return Some(e.material);
            }
            i += 1;
        }
        None
    }

    /// Adds a material to the document, and what is written beside it to the report; `loads` holds
    /// what each of its slots got.
    pub fn add_gltf_material(
        &mut self,
        path: &str,
        tint: [u8; 4],
        inputs: &MaterialInputs,
        loads: &Vec<Option<Loaded>>,
    ) -> (r: u32)
        requires
            sound(old(self)@),
            crate::gltf::has_space(old(self)@.builder),
            is_known_as(old(self)@.materials, path@, false),
            material_from(old(self)@.gltf_materials, path@, tint@, 0) is None,
            crate::gltf_material::suits(
                material_at(old(self)@.materials, path@)->Some_0->Some_0.resolved,
                *inputs,
                loads@,
            ),
        ensures
            final(self)@ == after_material(old(self)@, path@, tint@, *inputs, loads@),
            r == old(self)@.builder.materials.len(),
            sound(final(self)@),
    {
        let ghost before = self@;
        let (extras, written, unlit) = match self.material(path) {
            Some(Some(k)) => (
                write_extras(&k.resolved, inputs, loads),
                write_material(path, &k.resolved, inputs, loads),
                k.resolved.unlit,
            ),
            _ => {
                return 0;
            },
        };
        let index: u32 = self.builder.add_material(written);
        proof {
            let v = self.report.material_extras@;
            assert(crate::report::numbered_views(v.push((index, extras)))
                =~= crate::report::numbered_views(v).push((index, extras@)));
        }
        self.report.material_extras.push((index, extras));
        if unlit {
            self.report.unlit_used = true;
        }
        let entry: MaterialEntry = MaterialEntry { path: path.to_owned(), tint, material: index };
        proof {
            let v = self.gltf_materials@;
            assert(entry_views(v.push(entry)) =~= entry_views(v).push(entry@));
        }
        self.gltf_materials.push(entry);
        proof {
            lemma_material_missing(before.gltf_materials, path@, tint@, 0);
            assert(entries_differ(self@.gltf_materials)) by {
                let v = self@.gltf_materials;
                assert(v == before.gltf_materials.push(entry@));
                assert forall|i: int, j: int| 0 <= i < j < v.len() implies {
                    &&& (#[trigger] v[i]).path != (#[trigger] v[j]).path || v[i].tint != v[j].tint
                    &&& v[i].material != v[j].material
                } by {
                    assert(v[i] == before.gltf_materials[i]);
                    if j < before.gltf_materials.len() {
                        assert(v[j] == before.gltf_materials[j]);
                    }
                }
            }
            assert forall|i: int| 0 <= i < self@.gltf_materials.len() implies (
            #[trigger] self@.gltf_materials[i]).material < self@.builder.materials.len() by {
                if i < before.gltf_materials.len() {
                    assert(self@.gltf_materials[i] == before.gltf_materials[i]);
                }
            }
            assert forall|i: int| 0 <= i < self@.probe_geometries.len() implies is_there(
                self@.builder,
                (#[trigger] self@.probe_geometries[i]).geometry,
            ) by {
                assert(is_there(before.builder, before.probe_geometries[i].geometry));
            }
            assert forall|i: int| 0 <= i < self@.meshes.len() implies (
            #[trigger] self@.meshes[i]).shared.mesh < self@.builder.meshes.len() by {
                assert(self@.meshes[i] == before.meshes[i]);
            }
            assert(self@.report.class_stats == before.report.class_stats);
            assert(crate::report::sound(self@.report));
        }
        index
    }

    /// What is known of the material at a path: nothing, that there is none, or the material.
    pub fn material(&self, path: &str) -> (r: Option<Option<&KnownMaterial>>)
        ensures
            match r {
                None => material_at(self@.materials, path@) is None,
                Some(None) => material_at(self@.materials, path@) == Some(None::<KnownView>),
                Some(Some(k)) => material_at(self@.materials, path@) == Some(Some(k@)),
            },
    {
        match self.materials.get(path) {
            None => None,
            Some(None) => Some(None),
            Some(Some(k)) => Some(Some(k)),
        }
    }

    /// Takes down a material, or that there is none. What is known of its path already stays.
    pub fn know_material(&mut self, path: &str, raw: Option<RawMaterial>)
        requires
            sound(old(self)@),
        ensures
            final(self)@ == after_known(old(self)@, path@, crate::material::opt_view(raw)),
            sound(final(self)@),
    {
        if self.material(path).is_some() {
            return;
        }
        let ghost before = self@;
        let known: Option<KnownMaterial> = match raw {
            Some(raw) => {
                let resolved: ResolvedMaterial = resolve(&raw);
                Some(KnownMaterial { raw, resolved })
            },
            None => None,
        };
        proof {
            assert(known_views(self.materials@.insert(path@, known)) =~= before.materials.insert(
                path@,
                crate::material::opt_view(known),
            ));
        }
        self.materials.insert(path.to_owned(), known);
        proof {
            let m = before.materials;
            let after = self@.materials;
            assert forall|other: Seq<char>| #[trigger] material_at(after, other) == (if other
                == path@ {
                Some(crate::material::opt_view(known))
            } else {
                material_at(m, other)
            }) by {}
            assert forall|other: Seq<char>, tools: bool| is_known_as(m, other, tools) implies
                #[trigger] is_known_as(after, other, tools) by {
                assert(material_at(after, other) == material_at(m, other));
            }
            assert(self@.gltf_materials == before.gltf_materials);
            assert(self@.meshes == before.meshes);
            assert(self@.probe_geometries == before.probe_geometries);
            assert(self@.builder == before.builder);
            assert(self@.report == before.report);
            assert(are_sorted_out(
                self@.materials,
                self@.report.per_material,
                self@.report.tools_dropped,
            ));
        }
    }

    /// Takes the resource of a material that was asked for. Where it holds no material, the report
    /// says why. What is known of its path already stays.
    pub fn take_material(&mut self, path: &str, fetched: Option<&Resource>)
        requires
            sound(old(self)@),
        ensures
            final(self)@ == after_fetch(old(self)@, path@, fetched),
            sound(final(self)@),
    {
        if self.material(path).is_some() {
            return;
        }
        let compiled: String = compiled_path(path);
        let ghost before = self@;
        let raw: Option<RawMaterial> = load_material(&mut self.report, compiled.as_str(), fetched);
        proof {
            assert(self@.report.per_material == before.report.per_material);
            assert(self@.report.tools_dropped == before.report.tools_dropped);
            assert(crate::report::sound(self@.report));
            assert(self@.materials == before.materials);
            assert(self@.gltf_materials == before.gltf_materials);
            assert(self@.meshes == before.meshes);
            assert(self@.probe_geometries == before.probe_geometries);
            assert(self@.builder == before.builder);
        }
        self.know_material(path, raw);
    }

    /// The shared mesh of a draw call, where the document has it.
    fn find_shared(&self, key: &str, index: usize, overlay: bool, material: u32) -> (r: Option<
        SharedMesh,
    >)
        ensures
            r == shared_from(self@.meshes, key@, index, overlay, material, 0),
    {
        let ghost all = self@.meshes;
        let mut i: usize = 0;
        while i < self.meshes.len()
            invariant
                i <= self.meshes@.len(),
                all == shared_views(self.meshes@),
                shared_from(all, key@, index, overlay, material, 0) == shared_from(
                    all,
                    key@,
                    index,
                    overlay,
                    material,
                    i as int,
                ),
            decreases self.meshes@.len() - i,
        {
            let e: &SharedEntry = &self.meshes[i];
            assert(all[i as int] == e@);
            if e.index == index && e.overlay == overlay && e.material == material && same(
                e.key.as_str(),
                key,
            ) {
                return Some(e.shared);
            }
            i += 1;
        }
        None
    }

    /// The number of the geometry of a draw call that is lit by probes, where the document has it.
    fn find_probe(&self, key: &str, index: usize, overlay: bool) -> (r: Option<usize>)
        ensures
            r == probe_from(self@.probe_geometries, key@, index, overlay, 0),
    {
        let ghost all = self@.probe_geometries;
        let mut i: usize = 0;
        while i < self.probe_geometries.len()
            invariant
                i <= self.probe_geometries@.len(),
                all == probe_views(self.probe_geometries@),
                probe_from(all, key@, index, overlay, 0) == probe_from(
                    all,
                    key@,
                    index,
                    overlay,
                    i as int,
                ),
            decreases self.probe_geometries@.len() - i,
        {
            let e: &ProbeEntry = &self.probe_geometries[i];
            assert(all[i as int] == e@);
            if e.index == index && e.overlay == overlay && same(e.key.as_str(), key) {
                return Some(i);
            }
            i += 1;
        }
        None
    }

    /// Counts a draw call, and says what it needs next. Every instance counts, also one whose mesh
    /// the document has already.
    fn plan_mesh(
        &mut self,
        key: &str,
        index: usize,
        overlay: bool,
        material_path: &str,
        material: u32,
        triangles: u64,
        lighting: LightingClass,
    ) -> (r: MeshStep)
        requires
            sound(old(self)@),
            crate::report::can_draw(old(self)@.report.counts, triangles),
            is_known_as(old(self)@.materials, material_path@, false),
        ensures
            final(self)@ == (CtxView {
                report: crate::report::after_draw(
                    old(self)@.report,
                    material_path@,
                    triangles,
                    lighting,
                ),
                ..old(self)@
            }),
            r == step_of(old(self)@, key@, index, overlay, material, lighting),
            sound(final(self)@),
    {
        let ghost before = self@;
        proof {
            let so_far = crate::report::value_or(before.report.per_material, material_path@, 0);
            crate::report::setting_brings_one_name(
                before.report.per_material,
                material_path@,
                (so_far + triangles) as u64,
            );
        }
        self.report.count_draw(material_path, triangles, lighting);
        match lighting {
            LightingClass::Probe => match self.find_probe(key, index, overlay) {
                Some(i) => MeshStep::Probe(i),
                None => MeshStep::Build,
            },
            _ => match self.find_shared(key, index, overlay, material) {
                Some(s) => MeshStep::Shared(s),
                None => MeshStep::Build,
            },
        }
    }

    /// Whether the counts have room for a draw call, whatever becomes of it.
    pub fn can_draw(&self, path: &str, triangles: u64) -> (r: bool)
        ensures
            r == has_room_to_draw(self@.report, path@, triangles),
    {
        let d: ToolsDrop = self.report.tools_drop(path);
        d.draw_calls < u32::MAX && d.triangles <= u64::MAX - triangles && self.report.can_count_draw(
            triangles,
        )
    }

    /// What becomes of a draw call: it waits for the resource of its material, it is left out where
    /// there is no such material or it is only for tools, it waits for the document's material of
    /// this tint, or it is counted and drawn.
    pub fn begin_draw(
        &mut self,
        key: &str,
        index: usize,
        overlay: bool,
        mesh: &Mesh,
        dc: &DrawCall,
        path: &str,
        tint: &[u8; 4],
    ) -> (r: DrawStep)
        requires
            sound(old(self)@),
            has_room_to_draw(old(self)@.report, path@, triangles_of(dc.index_count)),
        ensures
            (final(self)@, r) == drawn_of(
                old(self)@,
                key@,
                index,
                overlay,
                mesh@,
                dc@,
                path@,
                tint@,
            ),
            sound(final(self)@),
    {
        let triangles: u64 = triangle_count(dc);
        let (tools, unlit, blend) = match self.material(path) {
            None => {
                return DrawStep::Fetch;
            },
            Some(None) => {
                return DrawStep::Missing;
            },
            Some(Some(k)) => (
                k.raw.is_tools_material(),
                k.resolved.unlit,
                needs_blend(&k.resolved),
            ),
        };
        if tools {
            self.leave_out(path, triangles);
            return DrawStep::Dropped;
        }
        let material: u32 = match self.find_gltf_material(path, tint) {
            Some(m) => m,
            None => {
                return DrawStep::Material;
            },
        };
        let lighting: LightingClass = classify_lighting(mesh, dc, unlit);
        let step: MeshStep = self.plan_mesh(
            key,
            index,
            overlay,
            path,
            material,
            triangles,
            lighting,
        );
        DrawStep::Drawn {
            material,
            lighting,
            triangles,
            needs_uv1: lighting == LightingClass::Lightmap,
            needs_blend: blend,
            step,
        }
    }

    /// Leaves a draw call out whose material is only for tools, and counts it there.
    fn leave_out(&mut self, path: &str, triangles: u64)
        requires
            sound(old(self)@),
            is_known_as(old(self)@.materials, path@, true),
            has_room_to_draw(old(self)@.report, path@, triangles),
        ensures
            final(self)@ == (CtxView {
                report: crate::report::after_tools_drop(old(self)@.report, path@, triangles),
                ..old(self)@
            }),
            sound(final(self)@),
    {
        let ghost before = self@;
        proof {
            let d = crate::report::value_or(
                before.report.tools_dropped,
                path@,
                crate::report::no_drop(),
            );
            crate::report::setting_brings_one_name(
                before.report.tools_dropped,
                path@,
                ToolsDrop {
                    draw_calls: (d.draw_calls + 1) as u32,
                    triangles: (d.triangles + triangles) as u64,
                },
            );
        }
        self.report.drop_tools(path, triangles);
    }

    /// Whether the class of an entity has room to count it.
    pub fn can_count(&self, e: &Entity, outcome: Outcome) -> (r: bool)
        ensures
            r == has_room_to_count(self@.report, *e, outcome),
    {
        let class: String = e.classname();
        let s: ClassStats = self.report.class(class.as_str());
        s.total < u32::MAX && match outcome {
            Outcome::Placed(n) => s.triangles <= u64::MAX - n,
            _ => true,
        }
    }

    /// Begins with an entity: one that is not placed is counted at once, of any other the path of
    /// its model is returned.
    pub fn begin_entity(&mut self, e: &Entity) -> (r: Option<String>)
        requires
            sound(old(self)@),
            has_room_to_count(old(self)@.report, *e, Outcome::NoModel),
        ensures
            match crate::lumps::step_of(*e) {
                EntityStepView::Nothing => r is None && final(self)@ == old(self)@,
                EntityStepView::Leave(outcome) => r is None && final(self)@ == after_entity(
                    old(self)@,
                    *e,
                    outcome,
                ),
                EntityStepView::Place(path) => r is Some && r->Some_0@ == path && final(self)@
                    == old(self)@,
            },
            sound(final(self)@),
    {
        match entity_step(e) {
            EntityStep::Nothing => None,
            EntityStep::Leave(outcome) => {
                self.count(e, outcome);
                None
            },
            EntityStep::Place(path) => Some(path),
        }
    }

    /// Ends with an entity that was to be placed: how many triangles its model draws, or none where
    /// it has no such model.
    pub fn end_entity(&mut self, e: &Entity, drawn: Option<u64>)
        requires
            sound(old(self)@),
            has_room_to_count(old(self)@.report, *e, outcome_of(drawn)),
        ensures
            final(self)@ == after_entity(old(self)@, *e, outcome_of(drawn)),
            sound(final(self)@),
    {
        match drawn {
            Some(n) => {
                self.count(e, Outcome::Placed(n));
            },
            None => {
                self.count(e, Outcome::NotFound);
            },
        }
    }

    /// Counts an entity.
    fn count(&mut self, e: &Entity, outcome: Outcome)
        requires
            sound(old(self)@),
            has_room_to_count(old(self)@.report, *e, outcome),
        ensures
            final(self)@ == after_entity(old(self)@, *e, outcome),
            sound(final(self)@),
    {
        let class: String = e.classname();
        let target: Option<String> = match e.targetname() {
            Some(t) => Some(t.clone()),
            None => None,
        };
        let model: String = match e.get_str("model") {
            Some(m) => m.clone(),
            None => "".to_owned(),
        };
        proof {
            reveal_strlit("");
            assert(model@ =~= crate::lumps::model_of(*e));
        }
        let ghost before = self@;
        self.report.count_entity(class.as_str(), &target, model.as_str(), outcome);
        proof {
            assert(self@.gltf_materials == before.gltf_materials);
            assert(self@.meshes == before.meshes);
            assert(self@.probe_geometries == before.probe_geometries);
            assert(self@.builder == before.builder);
            assert(crate::report::sound(self@.report));
        }
    }

    /// Writes down that the geometry of a draw call cannot be had.
    pub fn note_draw_fault(&mut self, key: &str, index: usize, e: &MeshError)
        requires
            sound(old(self)@),
        ensures
            final(self)@ == (CtxView {
                report: crate::place::with_message(
                    old(self)@.report,
                    draw_fault_text(key@, index as int, crate::error::fault_text(e@)),
                ),
                ..old(self)@
            }),
            sound(final(self)@),
    {
        let mut m: String = concat(key, "#");
        m.append(decimal(index as u64).as_str());
        m.append(": ");
        m.append(e.message().as_str());
        self.report.note_missing(m);
    }

    /// Adds the geometry of a draw call to the document, and keeps it for later instances. `path` is
    /// that of its material.
    pub fn add_mesh_geometry(
        &mut self,
        key: &str,
        index: usize,
        overlay: bool,
        path: &str,
        material: u32,
        lighting: LightingClass,
        geometry: &DrawGeometry,
        streams: &Streams,
    ) -> (r: MeshStep)
        requires
            sound(old(self)@),
            is_known_as(old(self)@.materials, path@, false),
            geometry@.uv1 is Some == (lighting == LightingClass::Lightmap),
            geometry@.blend is Some == has_second_layer(
                material_at(old(self)@.materials, path@)->Some_0->Some_0.resolved,
            ),
            crate::geometry::are_of(*streams, geometry@, overlay),
            crate::geometry::can_take_streams(
                old(self)@.builder,
                geometry.indices@,
                *streams,
            ),
        ensures
            (final(self)@, r) == after_geometry(
                old(self)@,
                key@,
                index,
                overlay,
                material,
                lighting,
                geometry.indices@,
                *streams,
            ),
            sound(final(self)@),
    {
        let ghost before = self@;
        proof {
            lemma_geometry(before.builder, geometry@, *streams, overlay);
        }
        let g: BuiltGeometry = add_geometry(&mut self.builder, geometry, streams, overlay);
        proof {
            assert forall|i: int| 0 <= i < before.probe_geometries.len() implies is_there(
                self@.builder,
                (#[trigger] before.probe_geometries[i]).geometry,
            ) by {
                assert(is_there(before.builder, before.probe_geometries[i].geometry));
            }
        }
        match lighting {
            LightingClass::Probe => {
                let n: usize = self.probe_geometries.len();
                let entry: ProbeEntry = ProbeEntry {
                    key: key.to_owned(),
                    index,
                    overlay,
                    geometry: g,
                    center: streams.center,
                };
                proof {
                    let v = self.probe_geometries@;
                    assert(probe_views(v.push(entry)) =~= probe_views(v).push(entry@));
                }
                self.probe_geometries.push(entry);
                proof {
                    assert forall|i: int| 0 <= i < self@.probe_geometries.len() implies is_there(
                        self@.builder,
                        (#[trigger] self@.probe_geometries[i]).geometry,
                    ) by {
                        if i < before.probe_geometries.len() {
                            assert(self@.probe_geometries[i] == before.probe_geometries[i]);
                        }
                    }
                }
                MeshStep::Probe(n)
            },
            _ => {
                let mesh: u32 = self.builder.add_mesh(write_mesh(&g, None, material, lighting));
                let shared: SharedMesh = SharedMesh {
                    mesh,
                    on_grid: g.on_grid,
                    center: streams.center,
                };
                let entry: SharedEntry = SharedEntry {
                    key: key.to_owned(),
                    index,
                    overlay,
                    material,
                    shared,
                };
                proof {
                    let v = self.meshes@;
                    assert(shared_views(v.push(entry)) =~= shared_views(v).push(entry@));
                }
                self.meshes.push(entry);
                proof {
                    assert forall|i: int| 0 <= i < self@.meshes.len() implies (
                    #[trigger] self@.meshes[i]).shared.mesh < self@.builder.meshes.len() by {
                        if i < before.meshes.len() {
                            assert(self@.meshes[i] == before.meshes[i]);
                        }
                    }
                    assert forall|i: int| 0 <= i < self@.probe_geometries.len() implies is_there(
                        self@.builder,
                        (#[trigger] self@.probe_geometries[i]).geometry,
                    ) by {
                        assert(self@.probe_geometries[i] == before.probe_geometries[i]);
                    }
                }
                MeshStep::Shared(shared)
            },
        }
    }

    /// Adds an instance of a mesh, and puts it among the children of a group.
    pub fn add_instance(
        &mut self,
        children: &mut Vec<u32>,
        name: Option<&str>,
        mesh: u32,
        transform: &Transform,
        order: Option<i64>,
        handshake: i64,
    )
        requires
            sound(old(self)@),
            crate::gltf::has_space(old(self)@.builder),
        ensures
            final(self)@ == (CtxView {
                builder: with_node(
                    old(self)@.builder,
                    instance_json(opt_lent(name), mesh, transform@, order, handshake),
                ),
                ..old(self)@
            }),
            final(children)@ == old(children)@.push(old(self)@.builder.nodes.len() as u32),
            sound(final(self)@),
    {
        let ghost before = self@;
        let node: u32 = self.builder.add_node(
            write_instance(name, mesh, transform, order, handshake),
        );
        children.push(node);
        proof {
            assert forall|i: int| 0 <= i < self@.probe_geometries.len() implies is_there(
                self@.builder,
                (#[trigger] self@.probe_geometries[i]).geometry,
            ) by {
                assert(is_there(before.builder, before.probe_geometries[i].geometry));
            }
        }
    }

    /// Whether the document and its report can take an instance that is lit by probes and has `n`
    /// vertices.
    pub fn can_bake(&self, n: usize) -> (r: bool)
        ensures
            r == has_room_to_bake(self@, n as int),
    {
        let limit: u128 = u32::MAX as u128;
        n <= usize::MAX / 8 && self.builder.can_take(8 * n)
            && self.builder.accessor_count() as u128 + 1 < limit
            && self.builder.buffer_view_count() as u128 + 1 < limit
            && self.builder.mesh_count() as u128 + 1 < limit
            && self.report.counts.probe_sample_failures as u128 + n as u128 <= limit
    }

    /// Adds an instance that is lit by probes: `lpv` holds the light of each vertex, where it could
    /// be read. Its geometry is shared, its light and its mesh are its own.
    pub fn add_probe_instance(
        &mut self,
        children: &mut Vec<u32>,
        name: Option<&str>,
        geometry: usize,
        material: u32,
        lpv: &Vec<Option<[u16; 4]>>,
        transform: &Transform,
        order: Option<i64>,
        handshake: i64,
    )
        requires
            sound(old(self)@),
            geometry < old(self)@.probe_geometries.len(),
            has_room_to_bake(old(self)@, lpv@.len() as int),
        ensures
            final(self)@ == after_probe_instance(
                old(self)@,
                old(self)@.probe_geometries[geometry as int].geometry,
                material,
                lpv@,
                opt_lent(name),
                transform@,
                order,
                handshake,
            ),
            final(children)@ == old(children)@.push(old(self)@.builder.nodes.len() as u32),
            sound(final(self)@),
    {
        let ghost before = self@;
        let mut lights: Vec<[u16; 4]> = Vec::new();
        let mut dark: u32 = 0;
        let mut i: usize = 0;
        while i < lpv.len()
            invariant
                i <= lpv@.len() <= u32::MAX,
                lights@ =~= lights_of(lpv@).take(i as int),
                dark == dark_count(lpv@.take(i as int)),
                dark <= i,
            decreases lpv@.len() - i,
        {
            proof {
                assert(lpv@.take(i + 1).drop_last() =~= lpv@.take(i as int));
                assert(lpv@.take(i + 1).last() == lpv@[i as int]);
            }
            match lpv[i] {
                Some(v) => {
                    lights.push(v);
                },
                None => {
                    lights.push([0u16, 0u16, 0u16, 0u16]);
                    dark = dark + 1;
                },
            }
            i += 1;
        }
        proof {
            assert(lpv@.take(i as int) =~= lpv@);
            assert(lights@ =~= lights_of(lpv@));
        }
        self.report.counts.probe_sample_failures = self.report.counts.probe_sample_failures + dark;
        let g: BuiltGeometry = self.probe_geometries[geometry].geometry;
        let accessor: u32 = self.builder.add_lpv_u16(&lights);
        let mesh: u32 = self.builder.add_mesh(
            write_mesh(&g, Some(accessor), material, LightingClass::Probe),
        );
        proof {
            assert forall|i: int| 0 <= i < self@.probe_geometries.len() implies is_there(
                self@.builder,
                (#[trigger] self@.probe_geometries[i]).geometry,
            ) by {
                assert(is_there(before.builder, before.probe_geometries[i].geometry));
            }
            assert forall|i: int| 0 <= i < self@.meshes.len() implies (
            #[trigger] self@.meshes[i]).shared.mesh < self@.builder.meshes.len() by {
                assert(self@.meshes[i] == before.meshes[i]);
            }
            assert forall|i: int| 0 <= i < self@.gltf_materials.len() implies (
            #[trigger] self@.gltf_materials[i]).material < self@.builder.materials.len() by {
                assert(self@.gltf_materials[i] == before.gltf_materials[i]);
            }
        }
        self.add_instance(children, name, mesh, transform, order, handshake);
    }

    /// Adds a group of nodes, and returns its index.
    pub fn add_group(&mut self, name: &str, children: &Vec<u32>) -> (r: u32)
        requires
            sound(old(self)@),
            crate::gltf::has_space(old(self)@.builder),
        ensures
            final(self)@ == (CtxView {
                builder: with_node(old(self)@.builder, group_json(name@, children@)),
                ..old(self)@
            }),
            r == old(self)@.builder.nodes.len(),
            sound(final(self)@),
    {
        let ghost before = self@;
        let mut m: Members = Members::new();
        m.put_text("name", name);
        m.put_array("children", write_indices(children));
        let node: u32 = self.builder.add_node(m.object());
        proof {
            assert forall|i: int| 0 <= i < self@.probe_geometries.len() implies is_there(
                self@.builder,
                (#[trigger] self@.probe_geometries[i]).geometry,
            ) by {
                assert(is_there(before.builder, before.probe_geometries[i].geometry));
            }
        }
        node
    }
}

} // verus!
