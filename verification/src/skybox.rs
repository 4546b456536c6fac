//! The three-dimensional skybox: a map of its own, which the outer map refers to and whose export
//! is folded into the outer map's report.

use crate::entity::{flatten_entities, Entity, EntityLump};
use crate::export::ExportResult;
use crate::json::{add_item, array, copy, get, set_member, Json, Members};
use crate::text::{
    chars_of, concat, eq_ignore_ascii_case, forward_slashes, same, starts_with, string_of,
    strip_prefix,
};
use vstd::prelude::*;

verus! {

/// Which map holds the skybox, and where the outer map puts it.
#[derive(Debug, Clone)]
pub struct SkyboxReferenceInfo {
    pub target_map: String,
    /// As the bits of singles, like the two that follow.
    pub origin: [u32; 3],
    pub angles: [u32; 3],
    pub scales: [u32; 3],
}

/// Reads a skybox reference; none where the entity is of another class or names no map.
pub fn parse_skybox_reference(e: &Entity) -> (r: Option<SkyboxReferenceInfo>)
    ensures
        match r {
            Some(s) => {
                &&& crate::entity::has_class(*e, "skybox_reference"@)
                &&& crate::entity::text_of(*e, "targetmapname"@) == Some(s.target_map@)
                &&& s.origin == e.origin
                &&& s.angles == e.angles
                &&& s.scales == e.scales
            },
            None => !crate::entity::has_class(*e, "skybox_reference"@) || crate::entity::text_of(
                *e,
                "targetmapname"@,
            ) is None,
        },
{
    if !e.is_class("skybox_reference") {
        return None;
    }
    match e.get_str("targetmapname") {
        Some(t) => Some(
            SkyboxReferenceInfo {
                target_map: t.clone(),
                origin: e.origin,
                angles: e.angles,
                scales: e.scales,
            },
        ),
        None => None,
    }
}

/// What follows a beginning, whatever the case of its letters.
pub open spec fn after_prefix(s: Seq<char>, prefix: Seq<char>) -> Option<Seq<char>> {
    if prefix.len() <= s.len() && crate::text::same_ignoring_case(
        s.subrange(0, prefix.len() as int),
        prefix,
    ) {
        Some(s.subrange(prefix.len() as int, s.len() as int))
    } else {
        None
    }
}

/// What comes before an end, whatever the case of its letters.
pub open spec fn before_suffix(s: Seq<char>, suffix: Seq<char>) -> Option<Seq<char>> {
    if suffix.len() <= s.len() && crate::text::same_ignoring_case(
        s.subrange(s.len() - suffix.len(), s.len() as int),
        suffix,
    ) {
        Some(s.subrange(0, s.len() - suffix.len()))
    } else {
        None
    }
}

/// What follows a beginning.
fn skip_prefix(s: &str, prefix: &str) -> (r: Option<String>)
    ensures
        crate::text::opt_text(r) == after_prefix(s@, prefix@),
{
    let chars: Vec<char> = chars_of(s);
    let n: usize = chars_of(prefix).len();
    if n > chars.len() {
        return None;
    }
    let head: String = string_of(&chars, 0, n);
    if eq_ignore_ascii_case(head.as_str(), prefix) {
        Some(string_of(&chars, n, chars.len()))
    } else {
        None
    }
}

/// What comes before an end.
fn drop_suffix(s: &str, suffix: &str) -> (r: Option<String>)
    ensures
        crate::text::opt_text(r) == before_suffix(s@, suffix@),
{
    let chars: Vec<char> = chars_of(s);
    let n: usize = chars_of(suffix).len();
    if n > chars.len() {
        return None;
    }
    let tail: String = string_of(&chars, chars.len() - n, chars.len());
    if eq_ignore_ascii_case(tail.as_str(), suffix) {
        Some(string_of(&chars, 0, chars.len() - n))
    } else {
        None
    }
}

/// The key of a map: its path without the directory of maps and without the extension, whatever
/// the case of their letters.
pub open spec fn map_key(target: Seq<char>) -> Seq<char> {
    let normalized = crate::text::forward_slashed(target);
    let stripped = match after_prefix(normalized, "maps/"@) {
        Some(t) => t,
        None => normalized,
    };
    match before_suffix(stripped, ".vmap"@) {
        Some(t) => t,
        None => match before_suffix(stripped, ".vmap_c"@) {
            Some(t) => t,
            None => stripped,
        },
    }
}

/// The key of the map that a skybox reference names.
pub fn map_key_from_target(target_map: &str) -> (r: String)
    ensures
        r@ == map_key(target_map@),
{
    let normalized: String = forward_slashes(target_map);
    let stripped: String = match skip_prefix(normalized.as_str(), "maps/") {
        Some(t) => t,
        None => normalized,
    };
    match drop_suffix(stripped.as_str(), ".vmap") {
        Some(t) => t,
        None => match drop_suffix(stripped.as_str(), ".vmap_c") {
            Some(t) => t,
            None => stripped,
        },
    }
}

/// Where a skybox's own camera is, and how much smaller than the outer map it is built.
#[derive(Debug, Clone)]
pub struct SkyCameraInfo {
    /// As the bits of singles, like the two that follow.
    pub scale: u32,
    pub origin: [u32; 3],
    pub angles: [u32; 3],
}

/// Reads a sky camera; none where the entity is of another class or has no scale.
pub fn parse_sky_camera(e: &Entity) -> (r: Option<SkyCameraInfo>)
    ensures
        r == camera_in(*e),
{
    if !e.is_class("sky_camera") {
        return None;
    }
    match e.get_single("scale") {
        Some(scale) => Some(SkyCameraInfo { scale, origin: e.origin, angles: e.angles }),
        None => None,
    }
}

/// The sky camera of an entity.
pub open spec fn camera_in(e: Entity) -> Option<SkyCameraInfo> {
    if !crate::entity::has_class(e, "sky_camera"@) {
        None
    } else {
        match crate::entity::single_of(e, "scale"@) {
            Some(scale) => Some(SkyCameraInfo { scale, origin: e.origin, angles: e.angles }),
            None => None,
        }
    }
}

/// The first sky camera, from `from` on.
pub open spec fn first_camera(v: Seq<Entity>, from: int) -> Option<SkyCameraInfo>
    decreases v.len() - from,
{
    if from < 0 || from >= v.len() {
        None
    } else {
        match camera_in(v[from]) {
            Some(c) => Some(c),
            None => first_camera(v, from + 1),
        }
    }
}

/// The sky camera of a map: the first.
pub fn find_sky_camera(lumps: &Vec<EntityLump>) -> (r: Option<SkyCameraInfo>)
    ensures
        r == first_camera(crate::entity::all_entities(lumps@), 0),
{
    let v: Vec<&Entity> = flatten_entities(lumps);
    let ghost all = crate::entity::lent(v@);
    let mut i: usize = 0;
    while i < v.len()
        invariant
            i <= v@.len(),
            all == crate::entity::lent(v@),
            all == crate::entity::all_entities(lumps@),
            first_camera(all, 0) == first_camera(all, i as int),
        decreases v@.len() - i,
    {
        assert(all[i as int] == *v@[i as int]);
        match parse_sky_camera(v[i]) {
            Some(c) => {
                return Some(c);
            },
            None => {},
        }
        i += 1;
    }
    None
}

/// The skybox reference of an entity.
pub open spec fn is_reference(e: Entity) -> bool {
    crate::entity::has_class(e, "skybox_reference"@) && crate::entity::text_of(
        e,
        "targetmapname"@,
    ) is Some
}

/// The skybox that a map refers to: by the first entity that names one.
pub fn find_skybox_reference(lumps: &Vec<EntityLump>) -> (r: Option<SkyboxReferenceInfo>)
    ensures
        match crate::entity::first_where(
            crate::entity::all_entities(lumps@),
            |e: Entity| is_reference(e),
            0,
        ) {
            Some(e) => r is Some && crate::entity::text_of(e, "targetmapname"@) == Some(
                r->Some_0.target_map@,
            ) && r->Some_0.origin == e.origin && r->Some_0.angles == e.angles
                && r->Some_0.scales == e.scales,
            None => r is None,
        },
{
    let v: Vec<&Entity> = flatten_entities(lumps);
    let ghost all = crate::entity::lent(v@);
    let ghost holds = |e: Entity| is_reference(e);
    let mut i: usize = 0;
    while i < v.len()
        invariant
            i <= v@.len(),
            all == crate::entity::lent(v@),
            all == crate::entity::all_entities(lumps@),
            holds == (|e: Entity| is_reference(e)),
            crate::entity::first_where(all, holds, 0) == crate::entity::first_where(
                all,
                holds,
                i as int,
            ),
        decreases v@.len() - i,
    {
        assert(all[i as int] == *v@[i as int]);
        match parse_skybox_reference(v[i]) {
            Some(r) => {
                return Some(r);
            },
            None => {},
        }
        i += 1;
    }
    None
}

/// A sky camera, as a document.
pub open spec fn camera_json(c: SkyCameraInfo) -> crate::json::JsonView {
    crate::json::JsonView::Object(
        crate::json::empty().push(("scale"@, crate::json::JsonView::Single(c.scale))).push(
            ("origin"@, crate::json::JsonView::Array(crate::json::floats(c.origin@))),
        ).push(("angles"@, crate::json::JsonView::Array(crate::json::floats(c.angles@)))),
    )
}

/// A sky camera, as a document.
pub fn write_camera(c: &SkyCameraInfo) -> (r: Json)
    ensures
        r@ == camera_json(*c),
{
    let mut m: Members = Members::new();
    m.put_single("scale", c.scale);
    m.put_singles("origin", c.origin.as_slice());
    m.put_singles("angles", c.angles.as_slice());
    m.object()
}

/// Whether a file of the skybox's export is not taken over: the outer map has its own flat sky, fog
/// and grading.
pub open spec fn is_dropped(name: Seq<char>) -> bool {
    name == "render_sky_cube.bin"@ || name == "render_fog_cube.bin"@ || name == "render_lut.bin"@
        || "render_sky_face_"@.is_prefix_of(name)
}

/// Whether a file of the skybox's export is not taken over.
pub fn is_dropped_extra_file(name: &str) -> (r: bool)
    ensures
        r == is_dropped(name@),
{
    same(name, "render_sky_cube.bin") || same(name, "render_fog_cube.bin") || same(
        name,
        "render_lut.bin",
    ) || starts_with(name, "render_sky_face_")
}

/// The name under which a file of the skybox's export is taken over: a lightmap is renamed, so that
/// it does not stand in for the outer map's.
pub open spec fn renamed(name: Seq<char>) -> Seq<char> {
    match crate::text::prefix_stripped(name, "render_lm_"@) {
        Some(rest) => "render_sky_lm_"@ + rest,
        None => name,
    }
}

/// The name under which a file of the skybox's export is taken over.
pub fn rename_lightmap_file(name: &str) -> (r: String)
    ensures
        r@ == renamed(name@),
{
    match strip_prefix(name, "render_lm_") {
        Some(rest) => concat("render_sky_lm_", rest.as_str()),
        None => name.to_owned(),
    }
}

/// The files that are taken over, under their new names and in their order.
pub open spec fn files_taken(files: Seq<(Seq<char>, Seq<u8>)>) -> Seq<(Seq<char>, Seq<u8>)>
    decreases files.len(),
{
    if files.len() == 0 {
        Seq::empty()
    } else if is_dropped(files.last().0) {
        files_taken(files.drop_last())
    } else {
        files_taken(files.drop_last()).push((renamed(files.last().0), files.last().1))
    }
}

/// No file that is taken over has the name of one of the outer map's lightmaps.
pub proof fn taken_files_are_no_lightmaps(files: Seq<(Seq<char>, Seq<u8>)>, i: int)
    requires
        0 <= i < files_taken(files).len(),
    ensures
        !"render_lm_"@.is_prefix_of(files_taken(files)[i].0),
    decreases files.len(),
{
    reveal_strlit("render_lm_");
    reveal_strlit("render_sky_lm_");
    let before = files_taken(files.drop_last());
    if i < before.len() {
        taken_files_are_no_lightmaps(files.drop_last(), i);
    } else {
        let name = files.last().0;
        if "render_lm_"@.is_prefix_of(name) {
            assert(renamed(name)[7] == 's');
            if "render_lm_"@.is_prefix_of(renamed(name)) {
                assert(renamed(name)[7] == "render_lm_"@[7]);
            }
        }
    }
}

/// The report of an export in which nothing is known of a sky camera.
#[derive(Debug, Clone, Copy, PartialEq, Eq, Structural)]
pub enum SkyboxMergeError {
    NoSkyCamera,
}

impl SkyboxMergeError {
    /// The message.
    pub fn message(&self) -> (r: String)
        ensures
            r@ == "skybox VPK's own entity lump has no sky_camera entity"@,
    {
        "skybox VPK's own entity lump has no sky_camera entity".to_owned()
    }
}

/// What of a skybox's export goes into that of the outer map.
#[derive(Debug)]
pub struct SkyboxMerge {
    pub glb_file_name: String,
    pub glb: Vec<u8>,
    pub extra_files: Vec<(String, Vec<u8>)>,
    pub json: Json,
}

/// A listed file under its new name.
pub open spec fn renamed_item(j: crate::json::JsonView) -> crate::json::JsonView {
    match crate::json::field_of(j, "file"@) {
        Some(f) => match f {
            crate::json::JsonView::Str(s) => crate::json::JsonView::Object(
                crate::json::with_member(
                    j->Object_0,
                    "file"@,
                    crate::json::JsonView::Str(renamed(s)),
                ),
            ),
            _ => j,
        },
        None => j,
    }
}

/// Listed files under their new names.
pub open spec fn renamed_items(v: Seq<crate::json::JsonView>) -> Seq<crate::json::JsonView> {
    Seq::new(v.len(), |i: int| renamed_item(v[i]))
}

/// Members with the files of one list under their new names; a list that is missing is `null`.
pub open spec fn with_renamed_list(
    m: Seq<(Seq<char>, crate::json::JsonView)>,
    key: Seq<char>,
) -> Seq<(Seq<char>, crate::json::JsonView)> {
    match crate::json::field_of(crate::json::JsonView::Object(m), key) {
        None => m.push((key, crate::json::JsonView::Null)),
        Some(v) => match v {
            crate::json::JsonView::Array(items) => crate::json::with_member(
                m,
                key,
                crate::json::JsonView::Array(renamed_items(items)),
            ),
            _ => m,
        },
    }
}

/// The lighting part of a report with its files under their new names.
pub open spec fn renamed_lighting(v: Option<crate::json::JsonView>) -> crate::json::JsonView {
    let m = match v {
        Some(crate::json::JsonView::Object(m)) => m,
        _ => crate::json::empty(),
    };
    crate::json::JsonView::Object(
        with_renamed_list(with_renamed_list(m, "lightmaps"@), "lightmapFallbacks"@),
    )
}

/// Why the sky, the fog and the grading are left out of the skybox's report.
pub const SKY_FILES_NOTE: &'static str =
    "this skybox map's own env_sky/env_cubemap_fog/post_processing_volume were decoded (cheap, every map has them) but their files were dropped and these three keys nulled out: the 3D skybox reuses the OUTER map's own 2D sky cube, fog and tonemapping/LUT (REPORT.md §5 'Skybox fog uses the main fog constants at ×scale positions', §6) -- only this map's own lightmaps/probes/materials/textures are kept, its render_lm_* files renamed to render_sky_lm_* to avoid colliding with the outer map's own";

/// What the file of the skybox is.
pub const FILE_MEANING: &'static str =
    "a second, self-contained render.glb/render.json pair for the 3D skybox VPK found via the main map's skybox_reference.targetmapname (f3_survey/REPORT.md §3); this key's own 'report' is exactly that skybox's render.json, in the skybox's OWN local coordinates -- do not apply 'reference'/'origin'/'scale' below to its geometry, only to the viewer's own skybox camera";

/// What the origin of the skybox is.
pub const ORIGIN_MEANING: &'static str =
    "sky_camera's own origin/scale (read from the skybox VPK's own entity lump, never the main map's) -- see this key's own cameraFormula for how it combines with reference.origin";

/// What the reference of the skybox is.
pub const REFERENCE_MEANING: &'static str =
    "the main map's own skybox_reference entity transform (skyboxReference in the p_main formula above); angles/scales are identity on every map surveyed (f3_survey/REPORT.md §3), but origin is not always zero (ar_shoots (0.733,575.999,0), ar_shoots_night, ar_baggage (-16,-1,27.575), de_overpass (0,0,4)) -- the viewer's camera-placement formula composes reference.origin in (see cameraFormula), the rotation/scale still assumed identity";

/// How the camera of the skybox is placed.
pub const CAMERA_FORMULA: &'static str =
    "VRF composes p_main = (p_sky - origin)*scale + reference.origin (WorldLoader.cs:1536-1548); inverted for camera placement: skyCameraPos = origin + (mainCameraPos - reference.origin)/scale, same orientation as the main camera; far plane must also cover the skybox's own geometry bounds, not just mainCamera.far/scale (a small far/scale can clip real background scenery on some maps), near/far otherwise scaled by 1/scale";

/// In which order the skybox is drawn.
pub const RENDER_ORDER: &'static str =
    "main scene opaque -> this skybox's own opaque geometry behind it with its own depth (clear depth in between) -> 2D sky -> this skybox's own translucents -> main scene translucents (REPORT.md §5, RR.cs:34-40,662-756)";

/// The report of the skybox as it goes into that of the outer map.
pub open spec fn merged_report(m: Seq<(Seq<char>, crate::json::JsonView)>) -> Seq<
    (Seq<char>, crate::json::JsonView),
> {
    let m = crate::json::with_member(
        m,
        "lighting"@,
        renamed_lighting(crate::json::field_of(crate::json::JsonView::Object(m), "lighting"@)),
    );
    let m = crate::json::with_member(m, "sky"@, crate::json::JsonView::Null);
    let m = crate::json::with_member(m, "fog"@, crate::json::JsonView::Null);
    let m = crate::json::with_member(m, "postProcessing"@, crate::json::JsonView::Null);
    crate::json::with_member(m, "skyFilesNote"@, crate::json::JsonView::Str(SKY_FILES_NOTE@))
}

/// A member, or `null` where it is missing.
pub open spec fn field_or_null(j: crate::json::JsonView, key: Seq<char>) -> crate::json::JsonView {
    match crate::json::field_of(j, key) {
        Some(v) => v,
        None => crate::json::JsonView::Null,
    }
}

/// The reference, as a document.
pub open spec fn reference_json(r: SkyboxReferenceInfo) -> crate::json::JsonView {
    crate::json::JsonView::Object(
        crate::json::empty().push(
            ("targetMap"@, crate::json::JsonView::Str(r.target_map@)),
        ).push(
            ("origin"@, crate::json::JsonView::Array(crate::json::floats(r.origin@))),
        ).push(
            ("angles"@, crate::json::JsonView::Array(crate::json::floats(r.angles@))),
        ).push(("scales"@, crate::json::JsonView::Array(crate::json::floats(r.scales@)))),
    )
}

/// The skybox part of the outer map's report.
pub open spec fn skybox_json(
    reference: SkyboxReferenceInfo,
    camera: crate::json::JsonView,
    report: Seq<(Seq<char>, crate::json::JsonView)>,
) -> crate::json::JsonView {
    crate::json::JsonView::Object(
        crate::json::empty().push(
            ("file"@, crate::json::JsonView::Str("render_sky.glb"@)),
        ).push(("fileMeaning"@, crate::json::JsonView::Str(FILE_MEANING@))).push(
            ("scale"@, field_or_null(camera, "scale"@)),
        ).push(("origin"@, field_or_null(camera, "origin"@))).push(
            ("originMeaning"@, crate::json::JsonView::Str(ORIGIN_MEANING@)),
        ).push(("reference"@, reference_json(reference))).push(
            ("referenceMeaning"@, crate::json::JsonView::Str(REFERENCE_MEANING@)),
        ).push(("cameraFormula"@, crate::json::JsonView::Str(CAMERA_FORMULA@))).push(
            ("renderOrder"@, crate::json::JsonView::Str(RENDER_ORDER@)),
        ).push(("report"@, crate::json::JsonView::Object(merged_report(report)))),
    )
}

/// The sky camera that a report tells of.
pub open spec fn camera_of(report: crate::json::JsonView) -> Option<crate::json::JsonView> {
    match crate::json::field_of(report, "skyCamera"@) {
        Some(v) => if v is Null {
            None
        } else {
            Some(v)
        },
        None => None,
    }
}

/// A listed file under its new name.
fn rename_item(j: &Json) -> (r: Json)
    ensures
        r@ == renamed_item(j@),
{
    match get(j, "file") {
        Some(f) => match f {
            Json::Str(s) => {
                let name: String = rename_lightmap_file(s.as_str());
                let value: Json = Json::Str(name);
                assert(value@ == crate::json::JsonView::Str(renamed(s@)));
                let mut c: Json = copy(j);
                proof {
                    crate::json::lemma_views(c);
                }
                match c {
                    Json::Object(list) => {
                        let mut list: Vec<(String, Json)> = list;
                        set_member(&mut list, "file", value);
                        Members { list }.object()
                    },
                    other => other,
                }
            },
            _ => copy(j),
        },
        None => copy(j),
    }
}

/// Listed files under their new names.
fn rename_items(v: &Vec<Json>) -> (r: Json)
    ensures
        r@ == crate::json::JsonView::Array(renamed_items(crate::json::json_views(v@))),
{
    let ghost all = renamed_items(crate::json::json_views(v@));
    let mut out: Vec<Json> = Vec::new();
    let mut i: usize = 0;
    while i < v.len()
        invariant
            i <= v@.len(),
            all == renamed_items(crate::json::json_views(v@)),
            crate::json::json_views(out@) =~= all.take(i as int),
        decreases v@.len() - i,
    {
        let item: Json = rename_item(&v[i]);
        assert(all.take(i + 1) =~= all.take(i as int).push(item@));
        add_item(&mut out, item);
        i += 1;
    }
    assert(all.take(i as int) =~= all);
    array(out)
}

/// Puts the files of one list under their new names.
fn rename_list(list: &mut Vec<(String, Json)>, key: &str)
    ensures
        crate::json::member_views(final(list)@) == with_renamed_list(
            crate::json::member_views(old(list)@),
            key@,
        ),
{
    let ghost before = crate::json::member_views(list@);
    let mut i: usize = 0;
    while i < list.len()
        invariant
            i <= list@.len(),
            crate::json::member_views(list@) == before,
            crate::json::index_from(before, key@, 0) == crate::json::index_from(
                before,
                key@,
                i as int,
            ),
        ensures
            i <= list@.len(),
            crate::json::member_views(list@) == before,
            i < list@.len() ==> crate::json::index_from(before, key@, 0) == Some(i as int),
            i == list@.len() ==> crate::json::index_from(before, key@, 0) is None,
        decreases list@.len() - i,
    {
        assert(before[i as int].0 == list@[i as int].0@);
        if same(list[i].0.as_str(), key) {
            break;
        }
        i += 1;
    }
    if i == list.len() {
        list.push((key.to_owned(), Json::Null));
        assert(crate::json::member_views(list@) =~= before.push(
            (key@, crate::json::JsonView::Null),
        ));
        return ;
    }
    assert(before[i as int].1 == list@[i as int].1@);
    let new_value: Option<Json> = match &list[i].1 {
        Json::Array(items) => {
            proof {
                crate::json::lemma_views(list@[i as int].1);
            }
            Some(rename_items(items))
        },
        _ => None,
    };
    match new_value {
        Some(value) => {
            set_member(list, key, value);
        },
        None => {},
    }
}

/// The lighting part of a report with its files under their new names.
fn rename_lighting(v: Option<&Json>) -> (r: Json)
    ensures
        r@ == renamed_lighting(
            match v {
                Some(j) => Some(j@),
                None => None,
            },
        ),
{
    let mut list: Vec<(String, Json)> = match v {
        Some(j) => {
            let c: Json = copy(j);
            proof {
                crate::json::lemma_views(c);
            }
            match c {
                Json::Object(list) => list,
                _ => Vec::new(),
            }
        },
        None => Vec::new(),
    };
    proof {
        let m = match v {
            Some(j) => match j@ {
                crate::json::JsonView::Object(m) => m,
                _ => crate::json::empty(),
            },
            None => crate::json::empty(),
        };
        assert(crate::json::member_views(list@) =~= m);
    }
    rename_list(&mut list, "lightmaps");
    rename_list(&mut list, "lightmapFallbacks");
    Members { list }.object()
}

/// Whether the lighting part of a report can hold lists of files.
pub open spec fn lighting_is_open(report: crate::json::JsonView) -> bool {
    match crate::json::field_of(report, "lighting"@) {
        Some(v) => v is Object || v is Null,
        None => true,
    }
}

/// The files that are taken over.
fn take_files(files: Vec<(String, Vec<u8>)>) -> (r: Vec<(String, Vec<u8>)>)
    ensures
        crate::native_texture::file_views(r@) == files_taken(
            crate::native_texture::file_views(files@),
        ),
{
    let ghost all = crate::native_texture::file_views(files@);
    let mut files: Vec<(String, Vec<u8>)> = files;
    let mut out: Vec<(String, Vec<u8>)> = Vec::new();
    let ghost mut n: int = 0;
    assert(crate::native_texture::file_views(out@) =~= files_taken(all.take(0)));
    assert(all.skip(0) =~= all);
    while files.len() > 0
        invariant
            0 <= n <= all.len(),
            crate::native_texture::file_views(files@) == all.skip(n),
            crate::native_texture::file_views(out@) == files_taken(all.take(n)),
        decreases files@.len(),
    {
        let ghost rest = files@;
        let (name, bytes) = files.remove(0);
        proof {
            assert(all.skip(n).len() == rest.len());
            assert(all[n] == all.skip(n)[0]);
            assert(all[n] == (name@, bytes@));
            assert(all.take(n + 1).drop_last() =~= all.take(n));
            assert(all.take(n + 1).last() == all[n]);
            assert(files@ =~= rest.subrange(1, rest.len() as int));
            assert(crate::native_texture::file_views(files@) =~= all.skip(n + 1)) by {
                assert forall|i: int| 0 <= i < files@.len() implies
                    crate::native_texture::file_views(files@)[i] == all.skip(n + 1)[i] by {
                    assert(crate::native_texture::file_views(rest)[i + 1] == all.skip(n)[i + 1]);
                }
            }
        }
        if !is_dropped_extra_file(name.as_str()) {
            let new_name: String = rename_lightmap_file(name.as_str());
            assert(crate::native_texture::file_views(out@.push((new_name, bytes)))
                =~= crate::native_texture::file_views(out@).push((new_name@, bytes@)));
            out.push((new_name, bytes));
        }
        proof {
            n = n + 1;
        }
    }
    assert(all.take(n) =~= all);
    out
}

/// A member, or `null` where it is missing.
fn copy_field(j: &Json, key: &str) -> (r: Json)
    ensures
        r@ == field_or_null(j@, key@),
{
    match get(j, key) {
        Some(v) => copy(v),
        None => Json::Null,
    }
}

/// The reference, as a document.
fn write_reference(r: &SkyboxReferenceInfo) -> (j: Json)
    ensures
        j@ == reference_json(*r),
{
    let mut m: Members = Members::new();
    m.put_text("targetMap", r.target_map.as_str());
    m.put_singles("origin", r.origin.as_slice());
    m.put_singles("angles", r.angles.as_slice());
    m.put_singles("scales", r.scales.as_slice());
    m.object()
}

/// Whether an export can be folded in or refused: one that has a sky camera also has a lighting part
/// that can hold lists of files.
pub fn can_merge(report: &Json) -> (r: bool)
    ensures
        r == (camera_of(report@) is Some ==> lighting_is_open(report@)),
{
    proof {
        crate::json::lemma_views(*report);
    }
    match get(report, "skyCamera") {
        None => true,
        Some(Json::Null) => true,
        Some(_) => match get(report, "lighting") {
            None => true,
            Some(v) => match v {
                Json::Object(_) => true,
                Json::Null => true,
                _ => false,
            },
        },
    }
}

/// Folds the export of a skybox into that of the outer map. An export without a sky camera cannot
/// be folded in.
pub fn merge_skybox_export(reference: &SkyboxReferenceInfo, sky_result: ExportResult) -> (r: Result<
    SkyboxMerge,
    SkyboxMergeError,
>)
    requires
        camera_of(sky_result.report@) is Some ==> lighting_is_open(sky_result.report@),
    ensures
        match r {
            Ok(m) => {
                &&& camera_of(sky_result.report@) is Some
                &&& m.glb_file_name@ == "render_sky.glb"@
                &&& m.glb@ == sky_result.glb@
                &&& crate::native_texture::file_views(m.extra_files@) == files_taken(
                    crate::native_texture::file_views(sky_result.extra_files@),
                )
                &&& m.json@ == skybox_json(
                    *reference,
                    camera_of(sky_result.report@)->Some_0,
                    sky_result.report@->Object_0,
                )
            },
            Err(_) => camera_of(sky_result.report@) is None,
        },
{
    let camera: Json = match get(&sky_result.report, "skyCamera") {
        Some(v) => match v {
            Json::Null => {
                return Err(SkyboxMergeError::NoSkyCamera);
            },
            _ => copy(v),
        },
        None => {
            return Err(SkyboxMergeError::NoSkyCamera);
        },
    };
    let lighting: Json = rename_lighting(get(&sky_result.report, "lighting"));
    let extra_files: Vec<(String, Vec<u8>)> = take_files(sky_result.extra_files);
    proof {
        crate::json::lemma_views(sky_result.report);
    }
    let mut report: Vec<(String, Json)> = match sky_result.report {
        Json::Object(list) => list,
        _ => Vec::new(),
    };
    set_member(&mut report, "lighting", lighting);
    let nothing: Json = Json::Null;
    assert(nothing@ == crate::json::JsonView::Null);
    set_member(&mut report, "sky", nothing);
    let nothing: Json = Json::Null;
    assert(nothing@ == crate::json::JsonView::Null);
    set_member(&mut report, "fog", nothing);
    let nothing: Json = Json::Null;
    assert(nothing@ == crate::json::JsonView::Null);
    set_member(&mut report, "postProcessing", nothing);
    let note: Json = crate::json::text(SKY_FILES_NOTE);
    set_member(&mut report, "skyFilesNote", note);
    let mut m: Members = Members::new();
    m.put_text("file", "render_sky.glb");
    m.put_text("fileMeaning", FILE_MEANING);
    m.put("scale", copy_field(&camera, "scale"));
    m.put("origin", copy_field(&camera, "origin"));
    m.put_text("originMeaning", ORIGIN_MEANING);
    m.put("reference", write_reference(reference));
    m.put_text("referenceMeaning", REFERENCE_MEANING);
    m.put_text("cameraFormula", CAMERA_FORMULA);
    m.put_text("renderOrder", RENDER_ORDER);
    m.put_object("report", Members { list: report });
    Ok(
        SkyboxMerge {
            glb_file_name: "render_sky.glb".to_owned(),
            glb: sky_result.glb,
            extra_files,
            json: m.object(),
        },
    )
}

} // verus!
