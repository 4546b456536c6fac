//! The sky, the fog and the grading of a map: which entities say what they are, and what is written
//! of them.

use crate::bits::{f32_above, F32_ONE, F32_ZERO};
use crate::entity::{
    find_entity, find_entity_by_targetname, flatten_entities, Entity, EntityLump,
};
use crate::json::{add_item, array, copy, Json, JsonView, Members};
use crate::kv::{Resource, Value};
use crate::lightmaps::{compressed_format_name, unmapped};
use crate::material::{decode_material, RawMaterial};
use crate::native_texture::{lay_out, LevelInfo, RawMip, VTexFormat};
use crate::source::compiled_path;
use crate::text::{concat, decimal, same};
use vstd::prelude::*;

verus! {

/// A property as a single, or a default.
pub open spec fn num_of(e: Entity, key: Seq<char>, default: u32) -> u32 {
    match crate::entity::single_of(e, key) {
        Some(v) => v,
        None => default,
    }
}

/// A property as a single, or a default.
pub fn num(e: &Entity, key: &str, default: u32) -> (r: u32)
    ensures
        r == num_of(*e, key@, default),
{
    match e.get_single(key) {
        Some(v) => v,
        None => default,
    }
}

/// A property as a truth value, or a default.
pub open spec fn flag_or(e: Entity, key: Seq<char>, default: bool) -> bool {
    match crate::entity::flag_of(e, key) {
        Some(b) => b,
        None => default,
    }
}

/// A property as a truth value, or a default.
pub fn boolish(e: &Entity, key: &str, default: bool) -> (r: bool)
    ensures
        r == flag_or(*e, key@, default),
{
    match e.get_bool(key) {
        Some(b) => b,
        None => default,
    }
}

/// Whether an entity is a sky.
pub open spec fn is_sky(e: Entity) -> bool {
    crate::entity::has_class(e, "env_sky"@)
}

/// Whether an entity is switched off.
pub open spec fn is_disabled(e: Entity) -> bool {
    flag_or(e, "startdisabled"@, false) || !flag_or(e, "enabled"@, true)
}

/// The sky among the first `n` entities: a later one takes the place of an earlier one unless it is
/// switched off.
pub open spec fn sky_among(v: Seq<Entity>, n: int) -> Option<Entity>
    decreases n,
{
    if n <= 0 {
        None
    } else {
        let before = sky_among(v, n - 1);
        let e = v[n - 1];
        if !is_sky(e) || (is_disabled(e) && before is Some) {
            before
        } else {
            Some(e)
        }
    }
}

/// The last sky that is not switched off is the sky of the map.
pub proof fn the_last_enabled_sky_counts(v: Seq<Entity>, i: int, n: int)
    requires
        0 <= i < n <= v.len(),
        is_sky(v[i]),
        !is_disabled(v[i]),
        forall|k: int| i < k < n ==> !is_sky(#[trigger] v[k]) || is_disabled(v[k]),
    ensures
        sky_among(v, n) == Some(v[i]),
    decreases n,
{
    if n - 1 > i {
        the_last_enabled_sky_counts(v, i, n - 1);
        assert(!is_sky(v[n - 1]) || is_disabled(v[n - 1]));
    }
}

/// Where every sky is switched off, the first is the sky of the map.
pub proof fn else_the_first_sky_counts(v: Seq<Entity>, i: int, n: int)
    requires
        0 <= i < n <= v.len(),
        is_sky(v[i]),
        forall|k: int| 0 <= k < i ==> !is_sky(#[trigger] v[k]),
        forall|k: int| 0 <= k < n ==> !is_sky(#[trigger] v[k]) || is_disabled(v[k]),
    ensures
        sky_among(v, n) == Some(v[i]),
    decreases n,
{
    if n - 1 > i {
        else_the_first_sky_counts(v, i, n - 1);
        assert(!is_sky(v[n - 1]) || is_disabled(v[n - 1]));
    } else {
        lemma_no_sky(v, i);
    }
}

/// Where there is no sky there is none.
proof fn lemma_no_sky(v: Seq<Entity>, n: int)
    requires
        0 <= n <= v.len(),
        forall|k: int| 0 <= k < n ==> !is_sky(#[trigger] v[k]),
    ensures
        sky_among(v, n) is None,
    decreases n,
{
    if n > 0 {
        lemma_no_sky(v, n - 1);
        assert(!is_sky(v[n - 1]));
    }
}

/// The sky of a map: the last that is not switched off, else the first.
pub fn pick_env_sky<'a>(lumps: &'a Vec<EntityLump>) -> (r: Option<&'a Entity>)
    ensures
        crate::entity::opt_entity(r) == sky_among(
            crate::entity::all_entities(lumps@),
            crate::entity::all_entities(lumps@).len() as int,
        ),
{
    let v: Vec<&'a Entity> = flatten_entities(lumps);
    let ghost all = crate::entity::lent(v@);
    let mut chosen: Option<&'a Entity> = None;
    let mut i: usize = 0;
    while i < v.len()
        invariant
            i <= v@.len(),
            all == crate::entity::lent(v@),
            crate::entity::opt_entity(chosen) == sky_among(all, i as int),
        decreases v@.len() - i,
    {
        let e: &'a Entity = v[i];
        assert(all[i as int] == *e);
        if e.is_class("env_sky") {
            let disabled: bool = boolish(e, "startdisabled", false) || !boolish(
                e,
                "enabled",
                true,
            );
            if !(disabled && chosen.is_some()) {
                chosen = Some(e);
            }
        }
        i += 1;
    }
    chosen
}

/// The bits of the single 255.
pub const F32_BYTE: u32 = 0x437F_0000;

/// What an entity says of the sky: as the bits of singles.
#[derive(Debug, Clone, Copy)]
pub struct SkyFields {
    /// From 0 to 255; white where it is missing.
    pub tint_color: [u32; 3],
    pub brightness_scale: u32,
    pub angles: [u32; 3],
}

/// What an entity says of the sky.
pub fn sky_fields(e: &Entity) -> (r: SkyFields)
    ensures
        r.tint_color@ == (match crate::entity::vector_of(*e, "tint_color"@) {
            Some(v) => v@,
            None => seq![F32_BYTE, F32_BYTE, F32_BYTE],
        }),
        r.brightness_scale == num_of(*e, "brightnessscale"@, F32_ONE),
        r.angles == e.angles,
{
    let tint_color: [u32; 3] = match e.get_vec3("tint_color") {
        Some(v) => v,
        None => [F32_BYTE, F32_BYTE, F32_BYTE],
    };
    SkyFields {
        tint_color,
        brightness_scale: num(e, "brightnessscale", F32_ONE),
        angles: e.angles,
    }
}

/// The material of a sky, or the message where the entity names none.
pub fn sky_material(e: &Entity) -> (r: Result<String, String>)
    ensures
        ({
            let name = crate::entity::text_of(*e, "skyname"@);
            match r {
                Ok(m) => name == Some(m@) && m@.len() > 0,
                Err(w) => (name is None || name->Some_0.len() == 0) && w@
                    == "env_sky: no skyname"@,
            }
        }),
{
    match e.get_str("skyname") {
        Some(s) => {
            if s.as_str().unicode_len() > 0 {
                return Ok(s.clone());
            }
        },
        None => {},
    }
    Err("env_sky: no skyname".to_owned())
}

/// The material of a sky, or the message where it cannot be had; `fetched` is what the archives
/// gave.
pub fn load_raw_material(vmat_path: &str, fetched: Result<&Resource, String>) -> (r: Result<
    RawMaterial,
    String,
>)
    ensures
        ({
            let path = crate::source::compiled(vmat_path@);
            match fetched {
                Err(why) => r is Err && r->Err_0@ == path + ": "@ + why@,
                Ok(resource) => match crate::place::material_of(*resource, path) {
                    Ok(m) => r is Ok && r->Ok_0@ == m,
                    Err(why) => r is Err && r->Err_0@ == path + ": "@ + why,
                },
            }
        }),
{
    let path: String = compiled_path(vmat_path);
    match fetched {
        Err(why) => {
            let mut m: String = concat(path.as_str(), ": ");
            m.append(why.as_str());
            Err(m)
        },
        Ok(resource) => match decode_material(resource, path.as_str()) {
            Ok(m) => Ok(m),
            Err(e) => {
                let mut m: String = concat(path.as_str(), ": ");
                m.append(e.message().as_str());
                Err(m)
            },
        },
    }
}

/// The texture of a sky, or the message where its material has none.
pub fn sky_texture(material_path: &str, material: &RawMaterial) -> (r: Result<String, String>)
    ensures
        match r {
            Ok(t) => crate::material::texture_of(material@, "g_tSkyTexture"@) == Some(t@),
            Err(w) => crate::material::texture_of(material@, "g_tSkyTexture"@) is None && w@
                == material_path@ + ": no g_tSkyTexture"@,
        },
{
    match material.texture("g_tSkyTexture") {
        Some(t) => Ok(t),
        None => Err(concat(material_path, ": no g_tSkyTexture")),
    }
}

/// The two terms of the exposure of a sky, as the bits of singles.
pub fn exposure_terms(material: &RawMaterial) -> (r: (u32, u32))
    ensures
        r == (
            crate::material::float_or(material@, "g_flBrightnessExposureBias"@, F32_ZERO),
            crate::material::float_or(material@, "g_flRenderOnlyExposureBias"@, F32_ZERO),
        ),
{
    (
        material.float_or("g_flBrightnessExposureBias", F32_ZERO),
        material.float_or("g_flRenderOnlyExposureBias", F32_ZERO),
    )
}

/// The finest level of a cube that is written: none is left out of the sky; of the fog those that
/// its lookup never reaches, which the floor of the lookup tells.
pub open spec fn base_level_of(total: u32, lookup_floor: Option<u32>) -> u32 {
    match lookup_floor {
        None => 0,
        Some(f) => if total == 0 {
            0
        } else if f < total {
            f
        } else {
            (total - 1) as u32
        },
    }
}

/// The finest level of a cube that is written.
pub fn cube_base_level(total: u32, lookup_floor: Option<u32>) -> (r: u32)
    ensures
        r == base_level_of(total, lookup_floor),
{
    match lookup_floor {
        None => 0,
        Some(f) => if total == 0 {
            0
        } else if f < total {
            f
        } else {
            total - 1
        },
    }
}

/// One level of a cube: its number and its format.
#[derive(Debug, Clone)]
pub struct CubeLevel {
    pub level: u32,
    pub format: VTexFormat,
    pub format_name: String,
}

/// A cube of which every level is one file, the smallest first, six faces each.
#[derive(Debug)]
pub struct SkyCube {
    pub bytes: Vec<u8>,
    pub levels: Vec<(u32, LevelInfo)>,
    pub format: &'static str,
    pub width: u32,
    pub height: u32,
    /// The levels of the texture, also those that were left out.
    pub total_mips: u32,
    /// The finest level that is there.
    pub base_level: u32,
}

/// The first level, from `from` on, whose format no reader takes as it is.
pub open spec fn unmapped_from(v: Seq<CubeLevel>, from: int) -> Option<CubeLevel>
    decreases v.len() - from,
{
    if from < 0 || from >= v.len() {
        None
    } else if crate::lightmaps::block_format(v[from].format) is None {
        Some(v[from])
    } else {
        unmapped_from(v, from + 1)
    }
}

/// Where the levels of a cube stand, with their numbers.
pub open spec fn numbered_levels(v: Seq<CubeLevel>, places: Seq<LevelInfo>) -> Seq<
    (u32, LevelInfo),
> {
    Seq::new(v.len(), |i: int| (v[i].level, places[i]))
}

/// The format of a cube: that of its last level, and none where it has none.
pub open spec fn cube_format(v: Seq<CubeLevel>) -> Seq<char> {
    if v.len() == 0 {
        ""@
    } else {
        crate::lightmaps::block_format(v.last().format)->Some_0
    }
}

/// Whether levels are those of a cube that were read: from the coarsest on, one after the other, down
/// to the finest level that is there, or to the one that could not be read.
pub open spec fn are_in_turn(v: Seq<CubeLevel>, total_mips: u32, base_level: u32, failed: bool) -> bool {
    &&& base_level <= total_mips
    &&& v.len() <= total_mips - base_level
    &&& !failed ==> v.len() == total_mips - base_level
    &&& failed ==> v.len() < total_mips - base_level
    &&& forall|i: int| 0 <= i < v.len() ==> (#[trigger] v[i]).level == total_mips - 1 - i
}

/// The cube of the levels that were read, in the order in which they are written; `failure` is the
/// message where a further level could not be read. A format that no reader takes is an error.
pub fn sky_cube(
    path: &str,
    width: u32,
    height: u32,
    total_mips: u32,
    base_level: u32,
    levels: &Vec<CubeLevel>,
    mips: &Vec<RawMip>,
    failure: Option<String>,
) -> (r: Result<SkyCube, String>)
    requires
        levels@.len() == mips@.len(),
        are_in_turn(levels@, total_mips, base_level, failure is Some),
    ensures
        match unmapped_from(levels@, 0) {
            Some(l) => r is Err && r->Err_0@ == crate::lightmaps::unmapped_text(
                path@,
                l.format_name@,
            ),
            None => match failure {
                Some(why) => r is Err && r->Err_0@ == why@,
                None => {
                    &&& r is Ok
                    &&& r->Ok_0.bytes@ == crate::native_texture::blob_of(
                        crate::native_texture::mip_views(mips@),
                    )
                    &&& r->Ok_0.levels@ == numbered_levels(
                        levels@,
                        crate::native_texture::levels_of(crate::native_texture::mip_views(mips@)),
                    )
                    &&& r->Ok_0.format@ == cube_format(levels@)
                    &&& r->Ok_0.width == width
                    &&& r->Ok_0.height == height
                    &&& r->Ok_0.total_mips == total_mips
                    &&& r->Ok_0.base_level == base_level
                },
            },
        },
{
    let mut format: &'static str = "";
    let mut i: usize = 0;
    while i < levels.len()
        invariant
            i <= levels@.len(),
            unmapped_from(levels@, 0) == unmapped_from(levels@, i as int),
            i == 0 ==> format@ == ""@,
            i > 0 ==> crate::lightmaps::block_format(levels@[i - 1].format) == Some(format@),
        decreases levels@.len() - i,
    {
        match compressed_format_name(levels[i].format) {
            Some(f) => {
                format = f;
            },
            None => {
                return Err(unmapped(path, levels[i].format_name.as_str()));
            },
        }
        i += 1;
    }
    match failure {
        Some(why) => {
            return Err(why);
        },
        None => {},
    }
    let (bytes, places) = lay_out(mips);
    proof {
        crate::native_texture::lemma_levels_len(crate::native_texture::mip_views(mips@));
    }
    let ghost all = numbered_levels(levels@, places@);
    let mut out: Vec<(u32, LevelInfo)> = Vec::new();
    let mut k: usize = 0;
    while k < levels.len()
        invariant
            k <= levels@.len(),
            places@.len() == levels@.len(),
            all == numbered_levels(levels@, places@),
            out@ =~= all.take(k as int),
        decreases levels@.len() - k,
    {
        out.push((levels[k].level, places[k]));
        k += 1;
    }
    assert(all.take(k as int) =~= all);
    Ok(SkyCube { bytes, levels: out, format, width, height, total_mips, base_level })
}

/// The place of a level of a cube, as a document.
pub open spec fn cube_level_json(l: (u32, LevelInfo)) -> JsonView {
    JsonView::Object(
        crate::json::empty().push(("level"@, JsonView::UInt(l.0 as u64))).push(
            ("faceWidth"@, JsonView::UInt(l.1.width as u64)),
        ).push(("faceHeight"@, JsonView::UInt(l.1.height as u64))).push(
            ("byteOffset"@, JsonView::UInt(l.1.offset)),
        ).push(("byteLength"@, JsonView::UInt(l.1.length))),
    )
}

/// The places of the levels of a cube, as documents.
pub open spec fn cube_levels_json(v: Seq<(u32, LevelInfo)>) -> Seq<JsonView> {
    Seq::new(v.len(), |i: int| cube_level_json(v[i]))
}

/// The places of the levels of a cube, as documents.
fn write_levels(v: &Vec<(u32, LevelInfo)>) -> (r: Vec<Json>)
    ensures
        crate::json::json_views(r@) == cube_levels_json(v@),
{
    let ghost all = cube_levels_json(v@);
    let mut out: Vec<Json> = Vec::new();
    let mut i: usize = 0;
    while i < v.len()
        invariant
            i <= v@.len(),
            all == cube_levels_json(v@),
            crate::json::json_views(out@) =~= all.take(i as int),
        decreases v@.len() - i,
    {
        let mut m: Members = Members::new();
        m.put_uint("level", v[i].0 as u64);
        m.put_uint("faceWidth", v[i].1.width as u64);
        m.put_uint("faceHeight", v[i].1.height as u64);
        m.put_uint("byteOffset", v[i].1.offset);
        m.put_uint("byteLength", v[i].1.length);
        let item: Json = m.object();
        assert(all.take(i + 1) =~= all.take(i as int).push(item@));
        add_item(&mut out, item);
        i += 1;
    }
    assert(all.take(i as int) =~= all);
    out
}

/// The order of the faces of a cube, as documents.
pub open spec fn face_order() -> Seq<JsonView> {
    Seq::<JsonView>::empty().push(JsonView::Str("+X"@)).push(JsonView::Str("-X"@)).push(
        JsonView::Str("+Y"@),
    ).push(JsonView::Str("-Y"@)).push(JsonView::Str("+Z"@)).push(JsonView::Str("-Z"@))
}

/// The order of the faces of a cube, as documents.
fn write_face_order() -> (r: Vec<Json>)
    ensures
        crate::json::json_views(r@) == face_order(),
{
    let mut out: Vec<Json> = Vec::new();
    assert(crate::json::json_views(out@) =~= Seq::<JsonView>::empty());
    add_item(&mut out, crate::json::text("+X"));
    add_item(&mut out, crate::json::text("-X"));
    add_item(&mut out, crate::json::text("+Y"));
    add_item(&mut out, crate::json::text("-Y"));
    add_item(&mut out, crate::json::text("+Z"));
    add_item(&mut out, crate::json::text("-Z"));
    out
}

/// The longest side of a face of the sky's fallback.
pub const SKY_FALLBACK_SIDE: u32 = 256;

/// The bits of the single 8, the range of the sky fallback's multiplier.
pub const SKY_RGBM_RANGE: u32 = 0x4100_0000;

/// The short name of a face.
pub open spec fn face_name(i: int) -> Seq<char> {
    if i == 0 {
        "px"@
    } else if i == 1 {
        "nx"@
    } else if i == 2 {
        "py"@
    } else if i == 3 {
        "ny"@
    } else if i == 4 {
        "pz"@
    } else {
        "nz"@
    }
}

/// The short name of a face.
pub fn sky_face_name(i: usize) -> (r: &'static str)
    requires
        i < 6,
    ensures
        r@ == face_name(i as int),
{
    match i {
        0 => "px",
        1 => "nx",
        2 => "py",
        3 => "ny",
        4 => "pz",
        _ => "nz",
    }
}

/// The file of a face.
pub fn sky_face_file(i: usize) -> (r: String)
    requires
        i < 6,
    ensures
        r@ == "render_sky_face_"@ + face_name(i as int) + ".png"@,
{
    let mut r: String = concat("render_sky_face_", sky_face_name(i));
    r.append(".png");
    r
}

/// The message where a cube has too few faces for a fallback.
pub fn too_few_faces(path: &str, layers: u32) -> (r: Option<String>)
    ensures
        layers >= 6 ==> r is None,
        layers < 6 ==> r is Some && r->Some_0@ == path@
            + ": sky fallback expected 6 cube faces, got "@ + crate::text::decimal_text(
            layers as int,
        ),
{
    if layers >= 6 {
        return None;
    }
    let mut m: String = concat(path, ": sky fallback expected 6 cube faces, got ");
    m.append(decimal(layers as u64).as_str());
    Some(m)
}

/// What the rotation of the sky is.
pub const SKY_ROTATION_MEANING: &'static str = 
    "row-major 3x3 rotation from env_sky's angles: rotation[i] is row i, world = rotation*local; sample direction is rotation^-1 * viewDir (sky.frag.slang:40-61)";

/// In which order the levels of the sky stand.
pub const SKY_MIPS_ORDER: &'static str = 
    "smallest first, matching the file's own on-disk mip order";

/// How the tint of the sky is applied.
pub const SKY_TINT_SPACE: &'static str = 
    "not linearized -- multiply directly into the sampled cube colour";

/// How the exposure of the sky is applied.
pub const SKY_EXPOSURE_FORMULA: &'static str = 
    "colour = textureCube(dir) * 2^exposureBias * tint, max(0)";

/// How the fallback of the sky is read.
pub const SKY_DECODE: &'static str = 
    "linear = rgb*a*8; PNG is linear, not sRGB";

/// A rotation, row by row, as a document.
pub open spec fn rotation_json(r: [[u32; 3]; 3]) -> JsonView {
    JsonView::Array(
        Seq::<JsonView>::empty().push(JsonView::Array(crate::json::floats(r@[0]@))).push(
            JsonView::Array(crate::json::floats(r@[1]@)),
        ).push(JsonView::Array(crate::json::floats(r@[2]@))),
    )
}

/// A rotation, row by row, as a document.
fn write_rotation(r: &[[u32; 3]; 3]) -> (j: Json)
    ensures
        j@ == rotation_json(*r),
{
    let mut rows: Vec<Json> = Vec::new();
    assert(crate::json::json_views(rows@) =~= Seq::<JsonView>::empty());
    let a: [u32; 3] = r[0];
    let b: [u32; 3] = r[1];
    let c: [u32; 3] = r[2];
    add_item(&mut rows, crate::json::singles(a.as_slice()));
    add_item(&mut rows, crate::json::singles(b.as_slice()));
    add_item(&mut rows, crate::json::singles(c.as_slice()));
    array(rows)
}

/// The fallback of the sky, as a document; `null` where there is none.
pub open spec fn sky_fallback_json(files: Option<Seq<Seq<char>>>) -> JsonView {
    match files {
        None => JsonView::Null,
        Some(v) => JsonView::Object(
            crate::json::empty().push(("files"@, JsonView::Array(crate::json::strs(v)))).push(
                ("faceOrder"@, JsonView::Array(face_order())),
            ).push(("encoding"@, JsonView::Str("RGBM8"@))).push(
                ("rgbmRange"@, JsonView::Single(SKY_RGBM_RANGE)),
            ).push(("decode"@, JsonView::Str(SKY_DECODE@))),
        ),
    }
}

/// The sky, as a document.
pub open spec fn sky_json(
    cube: SkyCube,
    rotation: [[u32; 3]; 3],
    tint: Seq<u32>,
    exposure_bias: u32,
    fallback: Option<Seq<Seq<char>>>,
) -> JsonView {
    JsonView::Object(
        crate::json::empty().push(("file"@, JsonView::Str("render_sky_cube.bin"@))).push(
            ("format"@, JsonView::Str(cube.format@)),
        ).push(("width"@, JsonView::UInt(cube.width as u64))).push(
            ("height"@, JsonView::UInt(cube.height as u64)),
        ).push(("faceOrder"@, JsonView::Array(face_order()))).push(
            ("mips"@, JsonView::Array(cube_levels_json(cube.levels@))),
        ).push(("mipsOrder"@, JsonView::Str(SKY_MIPS_ORDER@))).push(
            ("rotation"@, rotation_json(rotation)),
        ).push(("rotationMeaning"@, JsonView::Str(SKY_ROTATION_MEANING@))).push(
            ("tint"@, JsonView::Array(crate::json::floats(tint))),
        ).push(("tintSpace"@, JsonView::Str(SKY_TINT_SPACE@))).push(
            ("exposureBias"@, JsonView::Single(exposure_bias)),
        ).push(("exposureFormula"@, JsonView::Str(SKY_EXPOSURE_FORMULA@))).push(
            ("fallback"@, sky_fallback_json(fallback)),
        ),
    )
}

/// The texts of an optional list.
pub open spec fn opt_texts(v: Option<&Vec<String>>) -> Option<Seq<Seq<char>>> {
    match v {
        Some(v) => Some(crate::text::texts(v@)),
        None => None,
    }
}

/// The sky, as a document.
pub fn write_sky(
    cube: &SkyCube,
    rotation: &[[u32; 3]; 3],
    tint: &[u32; 3],
    exposure_bias: u32,
    fallback: Option<&Vec<String>>,
) -> (r: Json)
    ensures
        r@ == sky_json(*cube, *rotation, tint@, exposure_bias, opt_texts(fallback)),
{
    let mut m: Members = Members::new();
    m.put_text("file", "render_sky_cube.bin");
    m.put_text("format", cube.format);
    m.put_uint("width", cube.width as u64);
    m.put_uint("height", cube.height as u64);
    m.put_array("faceOrder", write_face_order());
    m.put_array("mips", write_levels(&cube.levels));
    m.put_text("mipsOrder", SKY_MIPS_ORDER);
    m.put("rotation", write_rotation(rotation));
    m.put_text("rotationMeaning", SKY_ROTATION_MEANING);
    m.put_singles("tint", tint.as_slice());
    m.put_text("tintSpace", SKY_TINT_SPACE);
    m.put_single("exposureBias", exposure_bias);
    m.put_text("exposureFormula", SKY_EXPOSURE_FORMULA);
    match fallback {
        None => {
            m.put_null("fallback");
        },
        Some(v) => {
            let mut f: Members = Members::new();
            f.put_texts("files", v);
            f.put_array("faceOrder", write_face_order());
            f.put_text("encoding", "RGBM8");
            f.put_single("rgbmRange", SKY_RGBM_RANGE);
            f.put_text("decode", SKY_DECODE);
            m.put_object("fallback", f);
        },
    }
    m.object()
}

/// Where the fog of a map has its cube from, as it is written: 1 for a sky, 2 for a material, and
/// any other number for a texture. A number that is not whole is rounded, halves away from zero.
pub open spec fn source_number(bits: u32) -> int {
    let p = crate::bits::f32_place(bits);
    if crate::bits::f32_nan(bits) {
        0
    } else if 0x3F00_0000 <= p < 0x3FC0_0000 {
        1
    } else if 0x3FC0_0000 <= p < 0x4020_0000 {
        2
    } else {
        0
    }
}

/// Where the fog of a map has its cube from.
fn read_source_number(bits: u32) -> (r: u32)
    ensures
        r == source_number(bits),
{
    if bits >= 0x3F00_0000 && bits < 0x3FC0_0000 {
        1
    } else if bits >= 0x3FC0_0000 && bits < 0x4020_0000 {
        2
    } else {
        0
    }
}

/// Where the fog of a map has its cube from.
#[derive(Debug, Clone)]
pub struct FogSource {
    /// How the cube is turned, as the bits of singles.
    pub angles: [u32; 3],
    pub brightness_scale: u32,
    pub material: Option<String>,
    pub direct_texture: Option<String>,
}

/// A [`FogSource`] as plain values.
pub struct FogSourceView {
    pub angles: [u32; 3],
    pub brightness_scale: u32,
    pub material: Option<Seq<char>>,
    pub direct_texture: Option<Seq<char>>,
}

impl View for FogSource {
    type V = FogSourceView;

    open spec fn view(&self) -> FogSourceView {
        FogSourceView {
            angles: self.angles,
            brightness_scale: self.brightness_scale,
            material: crate::text::opt_text(self.material),
            direct_texture: crate::text::opt_text(self.direct_texture),
        }
    }
}

/// The name of the sky that a fog refers to.
pub open spec fn sky_name(fog: Entity) -> Seq<char> {
    match crate::entity::text_of(fog, "cubemapfogskyentity"@) {
        Some(s) => s,
        None => ""@,
    }
}

/// The brightness of the sky that a fog refers to; 1 where it is not more than nought.
pub open spec fn sky_scale(sky: Entity) -> u32 {
    let scale = num_of(sky, "brightnessscale"@, F32_ONE);
    if crate::bits::f32_exceeds(scale, F32_ZERO) {
        scale
    } else {
        F32_ONE
    }
}

/// Where the fog of a map has its cube from: the sky that it refers to, with its turn and its
/// brightness, a material of its own, or a texture of its own.
pub open spec fn fog_source_of(v: Seq<Entity>, fog: Entity) -> Result<FogSourceView, Seq<char>> {
    let n = source_number(num_of(fog, "cubemapfogsource"@, F32_ZERO));
    let name = sky_name(fog);
    if n == 1 {
        match crate::entity::first_where(
            v,
            |e: Entity| crate::entity::target_of(e) == Some(name),
            0,
        ) {
            Some(sky) => Ok(
                FogSourceView {
                    angles: sky.angles,
                    brightness_scale: sky_scale(sky),
                    material: crate::entity::text_of(sky, "skyname"@),
                    direct_texture: None,
                },
            ),
            None => Err(
                "env_cubemap_fog: cubemapfogskyentity '"@ + name + "' not found, fog disabled"@,
            ),
        }
    } else if n == 2 {
        Ok(
            FogSourceView {
                angles: fog.angles,
                brightness_scale: F32_ONE,
                material: crate::entity::text_of(fog, "cubemapfogskymaterial"@),
                direct_texture: None,
            },
        )
    } else {
        Ok(
            FogSourceView {
                angles: fog.angles,
                brightness_scale: F32_ONE,
                material: None,
                direct_texture: crate::entity::text_of(fog, "cubemapfogtexture"@),
            },
        )
    }
}

/// A text of an entity.
fn copy_text(e: &Entity, key: &str) -> (r: Option<String>)
    ensures
        crate::text::opt_text(r) == crate::entity::text_of(*e, key@),
{
    match e.get_str(key) {
        Some(s) => Some(s.clone()),
        None => None,
    }
}

/// Where the fog of a map has its cube from, or the message where the sky that it refers to is
/// missing.
pub fn fog_source(lumps: &Vec<EntityLump>, fog: &Entity) -> (r: Result<FogSource, String>)
    ensures
        match fog_source_of(crate::entity::all_entities(lumps@), *fog) {
            Ok(s) => r is Ok && r->Ok_0@ == s,
            Err(w) => r is Err && r->Err_0@ == w,
        },
{
    let n: u32 = read_source_number(num(fog, "cubemapfogsource", F32_ZERO));
    if n == 1 {
        let name: String = match copy_text(fog, "cubemapfogskyentity") {
            Some(s) => s,
            None => "".to_owned(),
        };
        match find_entity_by_targetname(lumps, name.as_str()) {
            Some(sky) => {
                let scale: u32 = num(sky, "brightnessscale", F32_ONE);
                let brightness_scale: u32 = if f32_above(scale, F32_ZERO) {
                    scale
                } else {
                    F32_ONE
                };
                Ok(
                    FogSource {
                        angles: sky.angles,
                        brightness_scale,
                        material: copy_text(sky, "skyname"),
                        direct_texture: None,
                    },
                )
            },
            None => {
                let mut m: String = concat(
                    "env_cubemap_fog: cubemapfogskyentity '",
                    name.as_str(),
                );
                m.append("' not found, fog disabled");
                Err(m)
            },
        }
    } else if n == 2 {
        Ok(
            FogSource {
                angles: fog.angles,
                brightness_scale: F32_ONE,
                material: copy_text(fog, "cubemapfogskymaterial"),
                direct_texture: None,
            },
        )
    } else {
        Ok(
            FogSource {
                angles: fog.angles,
                brightness_scale: F32_ONE,
                material: None,
                direct_texture: copy_text(fog, "cubemapfogtexture"),
            },
        )
    }
}

/// What a fog looks into: the texture of a material, or a texture itself.
#[derive(Debug, Clone)]
pub enum FogLook {
    Material(String),
    Texture(String),
}

/// What a fog looks into: its material comes before its texture. The message where it has neither.
pub fn fog_look(source: &FogSource) -> (r: Result<FogLook, String>)
    ensures
        match r {
            Ok(FogLook::Material(m)) => source@.material == Some(m@),
            Ok(FogLook::Texture(t)) => source@.material is None && source@.direct_texture == Some(
                t@,
            ),
            Err(why) => source@.material is None && source@.direct_texture is None && why@
                == "env_cubemap_fog: no cubemap texture source resolved"@,
        },
{
    match &source.material {
        Some(m) => Ok(FogLook::Material(m.clone())),
        None => match &source.direct_texture {
            Some(t) => Ok(FogLook::Texture(t.clone())),
            None => Err("env_cubemap_fog: no cubemap texture source resolved".to_owned()),
        },
    }
}

/// The cube that a fog looks into.
#[derive(Debug)]
pub struct FogCube {
    pub file: &'static str,
    pub mips: u64,
    pub base_level: u32,
    pub format: String,
    pub width: u32,
    pub height: u32,
    pub mip_layout: Json,
    pub mips_order: &'static str,
}

/// In which order the levels of a cube stand that the fog shares with the sky.
pub const SHARED_MIPS_ORDER: &'static str = 
    "same as sky.mipsOrder (this file's mips are identical to the 2D sky cube's)";

/// In which order the levels of the fog's own cube stand.
pub const FOG_MIPS_ORDER: &'static str = 
    "smallest first, matching the file's own on-disk mip order; only levels >= skyCubeBaseLevel are present, since the fog lookup never reaches a finer one (§3)";

/// What of the sky's cube a fog needs to know: how many levels were written, their format and the
/// size of its faces. The sky's cube may be missing: then there are no levels.
#[derive(Debug)]
pub struct SkyShape {
    pub mips: u64,
    pub format: String,
    pub width: u32,
    pub height: u32,
}

/// The shape of the sky's cube.
pub fn sky_shape(cube: Option<&SkyCube>) -> (r: SkyShape)
    ensures
        match cube {
            Some(c) => r.mips == c.levels@.len() && r.format@ == c.format@ && r.width == c.width
                && r.height == c.height,
            None => r.mips == 0 && r.format@ == ""@ && r.width == 0 && r.height == 0,
        },
{
    match cube {
        Some(c) => SkyShape {
            mips: c.levels.len() as u64,
            format: c.format.to_owned(),
            width: c.width,
            height: c.height,
        },
        None => SkyShape { mips: 0, format: "".to_owned(), width: 0, height: 0 },
    }
}

/// The cube of a fog that looks into the same texture as the sky: the sky's own file. None where it
/// looks into another.
pub fn shared_fog_cube(sky_texture: &Option<String>, texture: &String, sky: &SkyShape) -> (r: Option<
    FogCube,
>)
    ensures
        r is Some == (crate::text::opt_text(*sky_texture) == Some(texture@)),
        r matches Some(c) ==> {
            &&& c.file@ == "render_sky_cube.bin"@
            &&& c.mips == sky.mips
            &&& c.base_level == 0
            &&& c.format@ == sky.format@
            &&& c.width == sky.width
            &&& c.height == sky.height
            &&& c.mip_layout@ == JsonView::Str("sky.mips"@)
            &&& c.mips_order@ == SHARED_MIPS_ORDER@
        },
{
    let is_shared: bool = match sky_texture {
        Some(t) => same(t.as_str(), texture.as_str()),
        None => false,
    };
    if !is_shared {
        return None;
    }
    Some(
        FogCube {
            file: "render_sky_cube.bin",
            mips: sky.mips,
            base_level: 0,
            format: sky.format.clone(),
            width: sky.width,
            height: sky.height,
            mip_layout: crate::json::text("sky.mips"),
            mips_order: SHARED_MIPS_ORDER,
        },
    )
}

/// The cube of a fog that looks into a texture of its own: a file of its own.
pub fn own_fog_cube(cube: &SkyCube) -> (r: FogCube)
    ensures
        r.file@ == "render_fog_cube.bin"@,
        r.mips == cube.total_mips,
        r.base_level == cube.base_level,
        r.format@ == cube.format@,
        r.width == cube.width,
        r.height == cube.height,
        r.mip_layout@ == JsonView::Array(cube_levels_json(cube.levels@)),
        r.mips_order@ == FOG_MIPS_ORDER@,
{
    FogCube {
        file: "render_fog_cube.bin",
        mips: cube.total_mips as u64,
        base_level: cube.base_level,
        format: cube.format.to_owned(),
        width: cube.width,
        height: cube.height,
        mip_layout: array(write_levels(&cube.levels)),
        mips_order: FOG_MIPS_ORDER,
    }
}

/// What the file of the fog's cube is.
pub const FOG_FILE_MEANING: &'static str = 
    "either render_sky_cube.bin (this fog samples the same cubemap as the 2D sky) or render_fog_cube.bin (a different cubemap written just for the fog)";

/// What the layout of the fog's cube is.
pub const FOG_LAYOUT_MEANING: &'static str = 
    "same shape as sky.mips (level/faceWidth/faceHeight/byteOffset/byteLength) when skyCubeFile is render_fog_cube.bin; the string \"sky.mips\" when it's render_sky_cube.bin, since the layout is that array";

/// What the finest level of the fog's cube is.
pub const FOG_BASE_MEANING: &'static str = 
    "index of the finest mip actually present in skyCubeFile -- gl.texParameteri(TEXTURE_CUBE_MAP, TEXTURE_BASE_LEVEL, skyCubeBaseLevel) before sampling, since levels below it were never written (render_fog_cube.bin only; always 0 for render_sky_cube.bin)";

/// What the rotation of the fog's cube is.
pub const FOG_ROTATION_MEANING: &'static str = 
    "row-major 3x3: rotation[i] is row i, world = rotation*local (same convention as sky.rotation)";

/// How the fog is applied.
pub const FOG_FORMULA: &'static str = 
    "d=length((P-Cam).xy); a=pow(max(d/(end-start)-start/(end-start),1e-4),falloffExp); h=(useHeight && hEnd>hStart) ? pow(max(P.z/(hStart-hEnd)+1-hStart/(hStart-hEnd),1e-4),hExp) : 1; blend=saturate(a)*saturate(h); lod=saturate(1-blend*lodBias)*min(7,skyMips); fogColor=textureLod(skyCube, rotation^-1 * normalize(P-Cam), lod) * 2^skyExposureBias; color=mix(color,fogColor,saturate(blend)*maxOpacity) -- applied only if |P-Cam|^2 > start^2 or P.z > hStart (SceneCubemapFog.cs:63-88, WorldLoader.cs:800-817, fog.slang:93-127); skyExposureBias already includes log2(skyBrightnessScale) (WorldLoader.cs:886), so it is not added again here";

/// The distances and heights of a fog.
pub open spec fn fog_ranges(fog: Entity) -> Seq<(Seq<char>, JsonView)> {
    crate::json::empty().push(
        ("start"@, JsonView::Single(num_of(fog, "cubemapfogstartdistance"@, F32_ZERO))),
    ).push(("end"@, JsonView::Single(num_of(fog, "cubemapfogenddistance"@, F32_ZERO)))).push(
        ("falloffExp"@, JsonView::Single(num_of(fog, "cubemapfogfalloffexponent"@, F32_ONE))),
    ).push(("hStart"@, JsonView::Single(num_of(fog, "cubemapfogheightstart"@, F32_ZERO)))).push(
        ("hEnd"@, JsonView::Single(num_of(fog, "cubemapfogheightend"@, F32_ZERO))),
    ).push(("hExp"@, JsonView::Single(num_of(fog, "cubemapfogheightexponent"@, F32_ONE)))).push(
        ("maxOpacity"@, JsonView::Single(num_of(fog, "cubemapfogmaxopacity"@, F32_ONE))),
    ).push(("lodBias"@, JsonView::Single(num_of(fog, "cubemapfoglodbiase"@, F32_ZERO)))).push(
        ("useHeight"@, JsonView::Bool(flag_or(fog, "cubemapheightfog"@, false))),
    )
}

/// The fog, as a document.
pub open spec fn fog_json(
    fog: Entity,
    cube: FogCube,
    rotation: [[u32; 3]; 3],
    exposure_bias: u32,
    brightness_scale: u32,
) -> JsonView {
    JsonView::Object(
        fog_ranges(fog).push(("skyCubeFile"@, JsonView::Str(cube.file@))).push(
            ("skyCubeFileMeaning"@, JsonView::Str(FOG_FILE_MEANING@)),
        ).push(("skyCubeFormat"@, JsonView::Str(cube.format@))).push(
            ("skyCubeWidth"@, JsonView::UInt(cube.width as u64)),
        ).push(("skyCubeHeight"@, JsonView::UInt(cube.height as u64))).push(
            ("skyCubeMipLayout"@, cube.mip_layout@),
        ).push(("skyCubeMipLayoutMeaning"@, JsonView::Str(FOG_LAYOUT_MEANING@))).push(
            ("skyCubeMipsOrder"@, JsonView::Str(cube.mips_order@)),
        ).push(("skyCubeBaseLevel"@, JsonView::UInt(cube.base_level as u64))).push(
            ("skyCubeBaseLevelMeaning"@, JsonView::Str(FOG_BASE_MEANING@)),
        ).push(("skyRotation"@, rotation_json(rotation))).push(
            ("skyRotationMeaning"@, JsonView::Str(FOG_ROTATION_MEANING@)),
        ).push(("skyExposureBias"@, JsonView::Single(exposure_bias))).push(
            ("skyBrightnessScale"@, JsonView::Single(brightness_scale)),
        ).push(("skyMips"@, JsonView::UInt(cube.mips))).push(
            ("formula"@, JsonView::Str(FOG_FORMULA@)),
        ),
    )
}

/// The fog, as a document.
pub fn write_fog(
    fog: &Entity,
    cube: &FogCube,
    rotation: &[[u32; 3]; 3],
    exposure_bias: u32,
    brightness_scale: u32,
) -> (r: Json)
    ensures
        r@ == fog_json(*fog, *cube, *rotation, exposure_bias, brightness_scale),
{
    let mut m: Members = Members::new();
    m.put_single("start", num(fog, "cubemapfogstartdistance", F32_ZERO));
    m.put_single("end", num(fog, "cubemapfogenddistance", F32_ZERO));
    m.put_single("falloffExp", num(fog, "cubemapfogfalloffexponent", F32_ONE));
    m.put_single("hStart", num(fog, "cubemapfogheightstart", F32_ZERO));
    m.put_single("hEnd", num(fog, "cubemapfogheightend", F32_ZERO));
    m.put_single("hExp", num(fog, "cubemapfogheightexponent", F32_ONE));
    m.put_single("maxOpacity", num(fog, "cubemapfogmaxopacity", F32_ONE));
    m.put_single("lodBias", num(fog, "cubemapfoglodbiase", F32_ZERO));
    m.put_bool("useHeight", boolish(fog, "cubemapheightfog", false));
    assert(m@ == fog_ranges(*fog));
    m.put_text("skyCubeFile", cube.file);
    m.put_text("skyCubeFileMeaning", FOG_FILE_MEANING);
    m.put_text("skyCubeFormat", cube.format.as_str());
    m.put_uint("skyCubeWidth", cube.width as u64);
    m.put_uint("skyCubeHeight", cube.height as u64);
    m.put("skyCubeMipLayout", copy(&cube.mip_layout));
    m.put_text("skyCubeMipLayoutMeaning", FOG_LAYOUT_MEANING);
    m.put_text("skyCubeMipsOrder", cube.mips_order);
    m.put_uint("skyCubeBaseLevel", cube.base_level as u64);
    m.put_text("skyCubeBaseLevelMeaning", FOG_BASE_MEANING);
    m.put("skyRotation", write_rotation(rotation));
    m.put_text("skyRotationMeaning", FOG_ROTATION_MEANING);
    m.put_single("skyExposureBias", exposure_bias);
    m.put_single("skyBrightnessScale", brightness_scale);
    m.put_uint("skyMips", cube.mips);
    m.put_text("formula", FOG_FORMULA);
    m.object()
}

/// The volume that says how the map is graded: the first that is the master, else the first.
pub open spec fn grading_volume(v: Seq<Entity>) -> Option<Entity> {
    match crate::entity::first_where(
        v,
        |e: Entity|
            crate::entity::has_class(e, "post_processing_volume"@) && crate::entity::flag_of(
                e,
                "master"@,
            ) == Some(true),
        0,
    ) {
        Some(e) => Some(e),
        None => crate::entity::first_of_class(v, "post_processing_volume"@),
    }
}

/// The volume that says how the map is graded.
pub fn pick_post_volume<'a>(lumps: &'a Vec<EntityLump>) -> (r: Option<&'a Entity>)
    ensures
        crate::entity::opt_entity(r) == grading_volume(crate::entity::all_entities(lumps@)),
{
    let v: Vec<&'a Entity> = flatten_entities(lumps);
    let ghost all = crate::entity::lent(v@);
    let ghost holds = |e: Entity|
        crate::entity::has_class(e, "post_processing_volume"@) && crate::entity::flag_of(
            e,
            "master"@,
        ) == Some(true);
    let mut i: usize = 0;
    while i < v.len()
        invariant
            i <= v@.len(),
            all == crate::entity::lent(v@),
            all == crate::entity::all_entities(lumps@),
            holds == (|e: Entity|
                crate::entity::has_class(e, "post_processing_volume"@) && crate::entity::flag_of(
                    e,
                    "master"@,
                ) == Some(true)),
            crate::entity::first_where(all, holds, 0) == crate::entity::first_where(
                all,
                holds,
                i as int,
            ),
        decreases v@.len() - i,
    {
        let e: &'a Entity = v[i];
        assert(all[i as int] == *e);
        if e.is_class("post_processing_volume") {
            match e.get_bool("master") {
                Some(b) => {
                    if b {
                        return Some(e);
                    }
                },
                None => {},
            }
        }
        i += 1;
    }
    find_entity(lumps, "post_processing_volume")
}

/// The bits of the single nearest to 0.8.
pub const F32_DARKEST: u32 = 0x3F4C_CCCD;

/// What evens out the exposure.
pub const EXPOSURE_COMPENSATION: &'static str = 
    "m_flExposureBias in vpost.toneMapParams (no separate entity-level compensation key found)";

/// How the exposure is found.
pub const EXPOSURE_FORMULA: &'static str = 
    "exposure = clamp(0.2691/avgLuma, min, max), smoothed at speedUp/speedDown (PostProcessRenderer.cs:339-460); x = hdr * exposure * 2^m_flExposureBias";

/// The exposure of a map, as a document.
pub open spec fn exposure_json(volume: Entity) -> JsonView {
    JsonView::Object(
        crate::json::empty().push(
            ("enabled"@, JsonView::Bool(flag_or(volume, "enableexposure"@, true))),
        ).push(("min"@, JsonView::Single(num_of(volume, "minexposure"@, F32_DARKEST)))).push(
            ("max"@, JsonView::Single(num_of(volume, "maxexposure"@, F32_ONE))),
        ).push(("speedUp"@, JsonView::Single(num_of(volume, "exposurespeedup"@, F32_ONE)))).push(
            ("speedDown"@, JsonView::Single(num_of(volume, "exposurespeeddown"@, F32_ONE))),
        ).push(("compensation"@, JsonView::Str(EXPOSURE_COMPENSATION@))).push(
            ("formula"@, JsonView::Str(EXPOSURE_FORMULA@)),
        ),
    )
}

/// The exposure of a map, as a document.
pub fn write_exposure(volume: &Entity) -> (r: Json)
    ensures
        r@ == exposure_json(*volume),
{
    let mut m: Members = Members::new();
    m.put_bool("enabled", boolish(volume, "enableexposure", true));
    m.put_single("min", num(volume, "minexposure", F32_DARKEST));
    m.put_single("max", num(volume, "maxexposure", F32_ONE));
    m.put_single("speedUp", num(volume, "exposurespeedup", F32_ONE));
    m.put_single("speedDown", num(volume, "exposurespeeddown", F32_ONE));
    m.put_text("compensation", EXPOSURE_COMPENSATION);
    m.put_text("formula", EXPOSURE_FORMULA);
    m.object()
}

/// The grading that a volume names, or the message where it names none.
pub fn post_path(volume: &Entity) -> (r: Result<String, String>)
    ensures
        ({
            let path = crate::entity::text_of(*volume, "postprocessing"@);
            let name = match crate::entity::target_of(*volume) {
                Some(t) => t,
                None => "<unnamed>"@,
            };
            match r {
                Ok(p) => path == Some(p@) && p@.len() > 0,
                Err(w) => (path is None || path->Some_0.len() == 0) && w@ == name
                    + ": post_processing_volume has no postprocessing path"@,
            }
        }),
{
    match volume.get_str("postprocessing") {
        Some(p) => {
            if p.as_str().unicode_len() > 0 {
                return Ok(p.clone());
            }
        },
        None => {},
    }
    match volume.targetname() {
        Some(t) => Err(
            concat(t.as_str(), ": post_processing_volume has no postprocessing path"),
        ),
        None => Err(concat("<unnamed>", ": post_processing_volume has no postprocessing path")),
    }
}

/// Members with a number of a tree more, where it is there.
pub open spec fn also_float(m: Seq<(Seq<char>, JsonView)>, v: Value, key: Seq<char>) -> Seq<
    (Seq<char>, JsonView),
> {
    match crate::kv::single_at(v, key) {
        Some(f) => m.push((key, JsonView::Single(f))),
        None => m,
    }
}

/// Puts a number of a tree in, where it is there.
fn put_float(m: &mut Members, v: &Value, key: &str)
    ensures
        final(m)@ == also_float(old(m)@, *v, key@),
{
    match v.get_f32(key) {
        Some(f) => {
            m.put_single(key, f);
        },
        None => {},
    }
}

/// The tone mapping, as a document: those of its numbers that are there.
pub open spec fn tonemap_json(v: Value) -> JsonView {
    let m = crate::json::empty();
    let m = also_float(m, v, "m_flExposureBias"@);
    let m = also_float(m, v, "m_flShoulderStrength"@);
    let m = also_float(m, v, "m_flLinearStrength"@);
    let m = also_float(m, v, "m_flLinearAngle"@);
    let m = also_float(m, v, "m_flToeStrength"@);
    let m = also_float(m, v, "m_flToeNum"@);
    let m = also_float(m, v, "m_flToeDenom"@);
    let m = also_float(m, v, "m_flWhitePoint"@);
    let m = also_float(m, v, "m_flLuminanceSource"@);
    let m = also_float(m, v, "m_flExposureBiasShadows"@);
    let m = also_float(m, v, "m_flExposureBiasHighlights"@);
    let m = also_float(m, v, "m_flMinShadowLum"@);
    let m = also_float(m, v, "m_flMaxShadowLum"@);
    let m = also_float(m, v, "m_flMinHighlightLum"@);
    let m = also_float(m, v, "m_flMaxHighlightLum"@);
    JsonView::Object(m)
}

/// The tone mapping, as a document.
fn write_tonemap(v: &Value) -> (r: Json)
    ensures
        r@ == tonemap_json(*v),
{
    let mut m: Members = Members::new();
    put_float(&mut m, v, "m_flExposureBias");
    put_float(&mut m, v, "m_flShoulderStrength");
    put_float(&mut m, v, "m_flLinearStrength");
    put_float(&mut m, v, "m_flLinearAngle");
    put_float(&mut m, v, "m_flToeStrength");
    put_float(&mut m, v, "m_flToeNum");
    put_float(&mut m, v, "m_flToeDenom");
    put_float(&mut m, v, "m_flWhitePoint");
    put_float(&mut m, v, "m_flLuminanceSource");
    put_float(&mut m, v, "m_flExposureBiasShadows");
    put_float(&mut m, v, "m_flExposureBiasHighlights");
    put_float(&mut m, v, "m_flMinShadowLum");
    put_float(&mut m, v, "m_flMaxShadowLum");
    put_float(&mut m, v, "m_flMinHighlightLum");
    put_float(&mut m, v, "m_flMaxHighlightLum");
    m.object()
}

/// The bloom, as a document: those of its numbers that are there.
pub open spec fn bloom_json(v: Value) -> JsonView {
    let m = crate::json::empty();
    let m = also_float(m, v, "m_flBloomStrength"@);
    let m = also_float(m, v, "m_flScreenBloomStrength"@);
    let m = also_float(m, v, "m_flBlurBloomStrength"@);
    let m = also_float(m, v, "m_flBloomThreshold"@);
    let m = also_float(m, v, "m_flBloomThresholdWidth"@);
    let m = also_float(m, v, "m_flSkyboxBloomStrength"@);
    let m = also_float(m, v, "m_flBloomStartValue"@);
    JsonView::Object(m)
}

/// The bloom, as a document.
fn write_bloom(v: &Value) -> (r: Json)
    ensures
        r@ == bloom_json(*v),
{
    let mut m: Members = Members::new();
    put_float(&mut m, v, "m_flBloomStrength");
    put_float(&mut m, v, "m_flScreenBloomStrength");
    put_float(&mut m, v, "m_flBlurBloomStrength");
    put_float(&mut m, v, "m_flBloomThreshold");
    put_float(&mut m, v, "m_flBloomThresholdWidth");
    put_float(&mut m, v, "m_flSkyboxBloomStrength");
    put_float(&mut m, v, "m_flBloomStartValue");
    m.object()
}

/// How the tones are mapped.
pub const TONE_MAP_FORMULA: &'static str = 
    "y=min(x*2.8, WP*2.8); f(y)=(y*(S*y+Ls*La)+T*Tn)/(y*(S*y+Ls)+T*Td) - Tn/Td; out = f(y)/f(WP*2.8) -> sRGB encode -> LUT(saturate(out)*(1-1/32)+0.5/32, bilinear, clamp) -> dither +-1/255 (post_processing.frag.slang:87-88; x = hdr * exposure * 2^m_flExposureBias, S=m_flShoulderStrength, Ls=m_flLinearStrength, La=m_flLinearAngle, T=m_flToeStrength, Tn=m_flToeNum, Td=m_flToeDenom, WP=m_flWhitePoint)";

/// How the bloom is applied.
pub const BLOOM_FORMULA: &'static str = 
    "weight = saturate((exposure*luma(0.3,0.59,0.11) - m_flBloomThreshold)/m_flBloomThresholdWidth)*m_flScreenBloomStrength; blur; s = saturate(b*exp/(b*exp+0.187)*1.035); color = color + s - color*s";

/// How the colours of the grading are stored.
pub const LUT_FORMAT: &'static str = 
    "RGBA8, x=R, y=G, z=B; bilinear, clamp; indexed by sRGB-encoded colour";

/// A truth value of a tree, or `false`.
pub open spec fn said(v: Value, key: Seq<char>) -> bool {
    match crate::kv::child(v, key) {
        Some(c) => match crate::kv::bool_of(c) {
            Some(b) => b,
            None => false,
        },
        None => false,
    }
}

/// A truth value of a tree, or `false`.
fn read_said(v: &Value, key: &str) -> (r: bool)
    ensures
        r == said(*v, key@),
{
    match v.get(key) {
        Some(c) => match c.as_bool() {
            Some(b) => b,
            None => false,
        },
        None => false,
    }
}

/// The colours of the grading, as they are stored.
pub open spec fn lut_of(root: Value) -> Option<Seq<u8>> {
    match crate::kv::child(root, "m_colorCorrectionVolumeData"@) {
        Some(v) => crate::kv::blob_of(v),
        None => None,
    }
}

/// The grading, as a document.
pub open spec fn vpost_json(path: Seq<char>, root: Value) -> JsonView {
    JsonView::Object(
        crate::json::empty().push(("source"@, JsonView::Str(path))).push(
            ("hasTonemapParams"@, JsonView::Bool(said(root, "m_bHasTonemapParams"@))),
        ).push(
            (
                "toneMapParams"@,
                match crate::kv::child(root, "m_toneMapParams"@) {
                    Some(v) => tonemap_json(v),
                    None => JsonView::Null,
                },
            ),
        ).push(("toneMapFormula"@, JsonView::Str(TONE_MAP_FORMULA@))).push(
            ("hasBloomParams"@, JsonView::Bool(said(root, "m_bHasBloomParams"@))),
        ).push(
            (
                "bloomParams"@,
                match crate::kv::child(root, "m_bloomParams"@) {
                    Some(v) => bloom_json(v),
                    None => JsonView::Null,
                },
            ),
        ).push(("bloomFormula"@, JsonView::Str(BLOOM_FORMULA@))).push(
            ("hasColorCorrection"@, JsonView::Bool(said(root, "m_bHasColorCorrection"@))),
        ).push(
            (
                "colorCorrectionVolumeDim"@,
                JsonView::Int(
                    match crate::kv::signed_at(root, "m_nColorCorrectionVolumeDim"@) {
                        Some(n) => n,
                        None => 0,
                    },
                ),
            ),
        ).push(
            (
                "colorCorrectionVolumeFile"@,
                if lut_of(root) is Some {
                    JsonView::Str("render_lut.bin"@)
                } else {
                    JsonView::Null
                },
            ),
        ).push(("colorCorrectionVolumeFormat"@, JsonView::Str(LUT_FORMAT@))),
    )
}

/// An optional list of bytes as a sequence.
pub open spec fn opt_bytes(v: Option<Vec<u8>>) -> Option<Seq<u8>> {
    match v {
        Some(v) => Some(v@),
        None => None,
    }
}

/// The grading of a resource, as a document, and its colours; or the message where it cannot be
/// had. `fetched` is what the archives gave.
pub fn build_vpost(vpost_path: &str, fetched: Result<&Resource, String>) -> (r: Result<
    (Json, Option<Vec<u8>>),
    String,
>)
    ensures
        ({
            let path = crate::source::compiled(vpost_path@);
            match fetched {
                Err(why) => r is Err && r->Err_0@ == path + ": "@ + why@,
                Ok(resource) => match resource.data {
                    Err(why) => r is Err && r->Err_0@ == path + ": "@ + why@,
                    Ok(root) => r is Ok && r->Ok_0.0@ == vpost_json(vpost_path@, root)
                        && opt_bytes(r->Ok_0.1) == lut_of(root),
                },
            }
        }),
{
    let path: String = compiled_path(vpost_path);
    let resource: &Resource = match fetched {
        Ok(resource) => resource,
        Err(why) => {
            let mut m: String = concat(path.as_str(), ": ");
            m.append(why.as_str());
            return Err(m);
        },
    };
    let root: &Value = match &resource.data {
        Ok(root) => root,
        Err(why) => {
            let mut m: String = concat(path.as_str(), ": ");
            m.append(why.as_str());
            return Err(m);
        },
    };
    let lut: Option<Vec<u8>> = match root.get("m_colorCorrectionVolumeData") {
        Some(v) => match v.as_blob() {
            Some(b) => {
                let mut bytes: Vec<u8> = Vec::new();
                crate::bytes::push_all(&mut bytes, b);
                assert(bytes@ =~= b@);
                Some(bytes)
            },
            None => None,
        },
        None => None,
    };
    let mut m: Members = Members::new();
    m.put_text("source", vpost_path);
    m.put_bool("hasTonemapParams", read_said(root, "m_bHasTonemapParams"));
    match root.get("m_toneMapParams") {
        Some(v) => {
            m.put("toneMapParams", write_tonemap(v));
        },
        None => {
            m.put_null("toneMapParams");
        },
    }
    m.put_text("toneMapFormula", TONE_MAP_FORMULA);
    m.put_bool("hasBloomParams", read_said(root, "m_bHasBloomParams"));
    match root.get("m_bloomParams") {
        Some(v) => {
            m.put("bloomParams", write_bloom(v));
        },
        None => {
            m.put_null("bloomParams");
        },
    }
    m.put_text("bloomFormula", BLOOM_FORMULA);
    m.put_bool("hasColorCorrection", read_said(root, "m_bHasColorCorrection"));
    let dim: i64 = match root.get_i64("m_nColorCorrectionVolumeDim") {
        Some(n) => n,
        None => 0,
    };
    m.put_int("colorCorrectionVolumeDim", dim);
    if lut.is_some() {
        m.put_text("colorCorrectionVolumeFile", "render_lut.bin");
    } else {
        m.put_null("colorCorrectionVolumeFile");
    }
    m.put_text("colorCorrectionVolumeFormat", LUT_FORMAT);
    Ok((m.object(), lut))
}

/// The grading of a map, as a document.
pub open spec fn post_json(volume: Entity, vpost: JsonView) -> JsonView {
    JsonView::Object(
        crate::json::empty().push(("exposure"@, exposure_json(volume))).push(("vpost"@, vpost)),
    )
}

/// The grading of a map, as a document.
pub fn write_post(volume: &Entity, vpost: Json) -> (r: Json)
    ensures
        r@ == post_json(*volume, vpost@),
{
    let mut m: Members = Members::new();
    m.put("exposure", write_exposure(volume));
    m.put("vpost", vpost);
    m.object()
}

/// What was found of the sky, the fog and the grading: documents, and the files beside them.
#[derive(Debug)]
pub struct EnvironmentResult {
    pub sky_json: Option<Json>,
    pub sky_cube_bytes: Option<Vec<u8>>,
    pub sky_fallback_files: Vec<(String, Vec<u8>)>,
    pub fog_json: Option<Json>,
    pub fog_cube_bytes: Option<Vec<u8>>,
    pub post_json: Option<Json>,
    pub lut_bytes: Option<Vec<u8>>,
    pub missing: Vec<String>,
}

/// An [`EnvironmentResult`] as plain values.
pub struct EnvironmentView {
    pub sky_json: Option<JsonView>,
    pub sky_cube_bytes: Option<Seq<u8>>,
    pub sky_fallback_files: Seq<(Seq<char>, Seq<u8>)>,
    pub fog_json: Option<JsonView>,
    pub fog_cube_bytes: Option<Seq<u8>>,
    pub post_json: Option<JsonView>,
    pub lut_bytes: Option<Seq<u8>>,
    pub missing: Seq<Seq<char>>,
}

impl View for EnvironmentResult {
    type V = EnvironmentView;

    open spec fn view(&self) -> EnvironmentView {
        EnvironmentView {
            sky_json: crate::material::opt_view(self.sky_json),
            sky_cube_bytes: opt_bytes(self.sky_cube_bytes),
            sky_fallback_files: crate::native_texture::file_views(self.sky_fallback_files@),
            fog_json: crate::material::opt_view(self.fog_json),
            fog_cube_bytes: opt_bytes(self.fog_cube_bytes),
            post_json: crate::material::opt_view(self.post_json),
            lut_bytes: opt_bytes(self.lut_bytes),
            missing: crate::text::texts(self.missing@),
        }
    }
}

/// Nothing was found.
pub open spec fn nothing_found() -> EnvironmentView {
    EnvironmentView {
        sky_json: None,
        sky_cube_bytes: None,
        sky_fallback_files: Seq::empty(),
        fog_json: None,
        fog_cube_bytes: None,
        post_json: None,
        lut_bytes: None,
        missing: Seq::empty(),
    }
}

impl Default for EnvironmentResult {
    fn default() -> (r: EnvironmentResult)
        ensures
            r@ == nothing_found(),
    {
        let r: EnvironmentResult = EnvironmentResult {
            sky_json: None,
            sky_cube_bytes: None,
            sky_fallback_files: Vec::new(),
            fog_json: None,
            fog_cube_bytes: None,
            post_json: None,
            lut_bytes: None,
            missing: Vec::new(),
        };
        assert(r@.sky_fallback_files =~= nothing_found().sky_fallback_files);
        assert(r@.missing =~= nothing_found().missing);
        r
    }
}

/// What was found, with a message more.
pub open spec fn with_missing(e: EnvironmentView, message: Seq<char>) -> EnvironmentView {
    EnvironmentView { missing: e.missing.push(message), ..e }
}

/// The names of files.
pub open spec fn names_of(v: Seq<(String, Vec<u8>)>) -> Seq<Seq<char>> {
    Seq::new(v.len(), |i: int| v[i].0@)
}

/// The names of files.
fn file_names(v: &Vec<(String, Vec<u8>)>) -> (r: Vec<String>)
    ensures
        crate::text::texts(r@) == names_of(v@),
{
    let mut out: Vec<String> = Vec::new();
    let mut i: usize = 0;
    while i < v.len()
        invariant
            i <= v@.len(),
            crate::text::texts(out@) =~= names_of(v@).take(i as int),
        decreases v@.len() - i,
    {
        let name: String = v[i].0.clone();
        proof {
            crate::text::lemma_texts_push(out@, name);
        }
        out.push(name);
        i += 1;
    }
    assert(names_of(v@).take(i as int) =~= names_of(v@));
    out
}

/// What was found, with a sky: without its cube there is none, without its faces it has no fallback.
pub open spec fn with_sky(
    e: EnvironmentView,
    cube: Result<SkyCube, String>,
    faces: Result<Vec<(String, Vec<u8>)>, String>,
    rotation: [[u32; 3]; 3],
    tint: Seq<u32>,
    exposure_bias: u32,
) -> EnvironmentView {
    match cube {
        Err(why) => with_missing(e, why@),
        Ok(c) => match faces {
            Ok(f) => EnvironmentView {
                sky_json: Some(sky_json(c, rotation, tint, exposure_bias, Some(names_of(f@)))),
                sky_cube_bytes: Some(c.bytes@),
                sky_fallback_files: e.sky_fallback_files + crate::native_texture::file_views(f@),
                ..e
            },
            Err(why) => with_missing(
                EnvironmentView {
                    sky_json: Some(sky_json(c, rotation, tint, exposure_bias, None)),
                    sky_cube_bytes: Some(c.bytes@),
                    ..e
                },
                why@,
            ),
        },
    }
}

/// What was found, with a fog: without its cube there is none. `bytes` is the file of a cube of its
/// own.
pub open spec fn with_fog(
    e: EnvironmentView,
    fog: Entity,
    cube: Result<(FogCube, Option<Vec<u8>>), String>,
    rotation: [[u32; 3]; 3],
    exposure_bias: u32,
    brightness_scale: u32,
) -> EnvironmentView {
    match cube {
        Err(why) => with_missing(e, why@),
        Ok(c) => EnvironmentView {
            fog_json: Some(fog_json(fog, c.0, rotation, exposure_bias, brightness_scale)),
            fog_cube_bytes: match c.1 {
                Some(b) => Some(b@),
                None => e.fog_cube_bytes,
            },
            ..e
        },
    }
}

/// What was found, with a grading.
pub open spec fn with_post(
    e: EnvironmentView,
    volume: Entity,
    vpost: Result<(Json, Option<Vec<u8>>), String>,
) -> EnvironmentView {
    match vpost {
        Err(why) => with_missing(e, why@),
        Ok(p) => EnvironmentView {
            post_json: Some(post_json(volume, p.0@)),
            lut_bytes: opt_bytes(p.1),
            ..e
        },
    }
}

impl EnvironmentResult {
    /// Takes down that something is missing.
    pub fn note_missing(&mut self, message: String)
        ensures
            final(self)@ == with_missing(old(self)@, message@),
    {
        proof {
            crate::text::lemma_texts_push(self.missing@, message);
        }
        self.missing.push(message);
    }

    /// Takes the sky: its cube, and the faces of its fallback.
    pub fn take_sky(
        &mut self,
        cube: Result<SkyCube, String>,
        faces: Result<Vec<(String, Vec<u8>)>, String>,
        rotation: &[[u32; 3]; 3],
        tint: &[u32; 3],
        exposure_bias: u32,
    )
        ensures
            final(self)@ == with_sky(old(self)@, cube, faces, *rotation, tint@, exposure_bias),
    {
        match cube {
            Err(why) => {
                self.note_missing(why);
            },
            Ok(c) => {
                match faces {
                    Ok(f) => {
                        let names: Vec<String> = file_names(&f);
                        self.sky_json = Some(
                            write_sky(&c, rotation, tint, exposure_bias, Some(&names)),
                        );
                        append_files(&mut self.sky_fallback_files, f);
                    },
                    Err(why) => {
                        self.sky_json = Some(write_sky(&c, rotation, tint, exposure_bias, None));
                        self.note_missing(why);
                    },
                }
                self.sky_cube_bytes = Some(c.bytes);
            },
        }
    }

    /// Takes the fog: its cube, with the file where it has one of its own.
    pub fn take_fog(
        &mut self,
        fog: &Entity,
        cube: Result<(FogCube, Option<Vec<u8>>), String>,
        rotation: &[[u32; 3]; 3],
        exposure_bias: u32,
        brightness_scale: u32,
    )
        ensures
            final(self)@ == with_fog(
                old(self)@,
                *fog,
                cube,
                *rotation,
                exposure_bias,
                brightness_scale,
            ),
    {
        match cube {
            Err(why) => {
                self.note_missing(why);
            },
            Ok((c, bytes)) => {
                self.fog_json = Some(
                    write_fog(fog, &c, rotation, exposure_bias, brightness_scale),
                );
                match bytes {
                    Some(b) => {
                        self.fog_cube_bytes = Some(b);
                    },
                    None => {},
                }
            },
        }
    }

    /// Takes the grading.
    pub fn take_post(&mut self, volume: &Entity, vpost: Result<(Json, Option<Vec<u8>>), String>)
        ensures
            final(self)@ == with_post(old(self)@, *volume, vpost),
    {
        match vpost {
            Err(why) => {
                self.note_missing(why);
            },
            Ok((j, lut)) => {
                self.post_json = Some(write_post(volume, j));
                self.lut_bytes = lut;
            },
        }
    }
}

/// What is missing is only ever added to: nothing that was found or noted is lost when the sky, the
/// fog or the grading cannot be had.
pub proof fn a_missing_part_spoils_no_other(
    e: EnvironmentView,
    why: String,
    faces: Result<Vec<(String, Vec<u8>)>, String>,
    rotation: [[u32; 3]; 3],
    tint: Seq<u32>,
    fog: Entity,
    volume: Entity,
    bias: u32,
    scale: u32,
)
    ensures
        with_sky(e, Err(why), faces, rotation, tint, bias) == with_missing(e, why@),
        with_fog(e, fog, Err(why), rotation, bias, scale) == with_missing(e, why@),
        with_post(e, volume, Err(why)) == with_missing(e, why@),
{
}

/// A list of files with one more, where there is one.
pub open spec fn also_file(v: Seq<(Seq<char>, Seq<u8>)>, name: Seq<char>, bytes: Option<Vec<u8>>) -> Seq<
    (Seq<char>, Seq<u8>),
> {
    match bytes {
        Some(b) => v.push((name, b@)),
        None => v,
    }
}

/// The files of the sky, the fog and the grading, in their order.
pub open spec fn environment_files(
    sky_cube: Option<Vec<u8>>,
    faces: Seq<(Seq<char>, Seq<u8>)>,
    fog_cube: Option<Vec<u8>>,
    lut: Option<Vec<u8>>,
) -> Seq<(Seq<char>, Seq<u8>)> {
    let v = also_file(Seq::empty(), "render_sky_cube.bin"@, sky_cube);
    let v = also_file(v + faces, "render_fog_cube.bin"@, fog_cube);
    also_file(v, "render_lut.bin"@, lut)
}

/// Puts a file in, where there is one.
fn put_file(v: &mut Vec<(String, Vec<u8>)>, name: &str, bytes: Option<Vec<u8>>)
    ensures
        crate::native_texture::file_views(final(v)@) == also_file(
            crate::native_texture::file_views(old(v)@),
            name@,
            bytes,
        ),
{
    match bytes {
        Some(b) => {
            let entry: (String, Vec<u8>) = (name.to_owned(), b);
            assert(crate::native_texture::file_views(v@.push(entry))
                =~= crate::native_texture::file_views(v@).push((name@, b@)));
            v.push(entry);
        },
        None => {},
    }
}

/// The files of the sky, the fog and the grading, in their order.
pub fn take_environment_files(
    sky_cube_bytes: Option<Vec<u8>>,
    sky_fallback_files: Vec<(String, Vec<u8>)>,
    fog_cube_bytes: Option<Vec<u8>>,
    lut_bytes: Option<Vec<u8>>,
) -> (r: Vec<(String, Vec<u8>)>)
    ensures
        crate::native_texture::file_views(r@) == environment_files(
            sky_cube_bytes,
            crate::native_texture::file_views(sky_fallback_files@),
            fog_cube_bytes,
            lut_bytes,
        ),
{
    let mut out: Vec<(String, Vec<u8>)> = Vec::new();
    assert(crate::native_texture::file_views(out@) =~= Seq::<(Seq<char>, Seq<u8>)>::empty());
    put_file(&mut out, "render_sky_cube.bin", sky_cube_bytes);
    append_files(&mut out, sky_fallback_files);
    put_file(&mut out, "render_fog_cube.bin", fog_cube_bytes);
    put_file(&mut out, "render_lut.bin", lut_bytes);
    out
}

/// Puts files at the end of a list.
pub fn append_files(v: &mut Vec<(String, Vec<u8>)>, more: Vec<(String, Vec<u8>)>)
    ensures
        crate::native_texture::file_views(final(v)@) == crate::native_texture::file_views(old(v)@)
            + crate::native_texture::file_views(more@),
{
    let mut more: Vec<(String, Vec<u8>)> = more;
    let ghost before = v@;
    let ghost rest = more@;
    v.append(&mut more);
    assert(v@ =~= before + rest);
    assert(crate::native_texture::file_views(v@) =~= crate::native_texture::file_views(before)
        + crate::native_texture::file_views(rest));
}

} // verus!
