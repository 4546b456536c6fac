//! The report of an export, as a document.

use crate::environment::append_files;
use crate::export::Ctx;
use crate::gltf_material::TextureRole;
use crate::json::{add_item, copy, Json, JsonView, Members};
use crate::lightmaps::{FallbackFile, LightmapFile};
use crate::report::{Counts, Report, ReportView};
use crate::skybox::{write_camera, SkyCameraInfo};
use crate::text::decimal;
use vstd::prelude::*;

verus! {

/// The bits of the single 32, the range of baked light.
pub const LPV_SCALE: u32 = 0x4200_0000;

/// What the colour budget covers.
pub const COLOR_NOTE: &'static str = 
    "base color, layer-2/env-layer-2 color, self-illum";

/// What the budget of normals covers.
pub const NORMAL_NOTE: &'static str = 
    "normal map (HemiOct RG + roughness in B), layer-2/env-layer-2 normal";

/// What the budget of masks covers.
pub const MASK_NOTE: &'static str = 
    "AO, metalness, blend modulation, tint mask, csgo_environment(_blend) g_tHeight1/2";

/// When a texture is written once for two.
pub const DEDUP_MEANING: &'static str = 
    "a texture whose raw multi-level blob hashes the same as an earlier one (different vtex path, or the same texture reused in a different role at the same base mip level) is written to render_tex/ once and reused (s6f3a6_native_tex.md change item 1's 'по пути+L, затем по SHA-256 содержимого')";

/// What the textures are.
pub const TEXTURES_MEANING: &'static str = 
    "raw, still block-compressed (or, for the one RGBA8888 texture on de_inferno, uncompressed) mip levels straight out of the game's own vtex_c, largest mip first, in render_tex/<sha12>.bin (s6f3a6_native_tex.md); format is BC7/BC1(=DXT1)/BC4(=ATI1N)/RGBA8, colorSpace is srgb/linear as decided by the shader PARAMETER this texture was read through (not by the texture itself -- the same vtex_c could in principle be srgb in one slot and linear in another, though no texture on either surveyed map actually is), codec is the post-sample decode the viewer's shader must run (hemiOct/dxt5nm/ycocg/reconstructZ/none); each level's {width,height,offset,length} indexes straight into the file's bytes. Materials reference these by index from extras (baseColorTexture, normalTexture, aoTexture, ...) rather than glTF's own textures[]/images[], which this exporter no longer populates at all (change item 7) -- a 4x4 single-mip source is instead folded into the material as a Constant (see extras' own *Constant/*ConstantCodec keys)";

/// How positions are stored.
pub const POSITION_NOTE: &'static str = 
    "SHORT (unnormalized) VEC3 -- a single power-of-two step (1/16 unit) shared by every mesh, with each mesh's own offset snapped to a multiple of that step and baked into its instance node's own matrix (composed with its placement transform); a vertex shared by two meshes therefore decodes to the same world position from both. Not normalized: KHR_mesh_quantization's own implementation note prefers unnormalized SHORT for POSITION. A mesh whose coordinates would overflow the SHORT range falls back to plain FLOAT VEC3 (positionFloatFallbackMeshes below counts these)";

/// How normals are stored.
pub const NORMAL_STORAGE: &'static str = 
    "BYTE normalized VEC3, plain per-component quantization (not octahedral)";

/// How texture coordinates are stored.
pub const TEXCOORD_NOTE: &'static str = 
    "UNSIGNED_SHORT normalized VEC2 when every value is within [0,1], else FLOAT (tiled UVs routinely exceed that range)";

/// What a reader needs.
pub const COMPRESSION_NOTE: &'static str = 
    "no uncompressed/unquantized fallback is ever written (this viewer is the only reader); it must call setMeshoptDecoder before parsing this file";

/// What the direction of the sun is.
pub const SUN_DIRECTION_MEANING: &'static str = 
    "unit vector the sunlight travels along (from the sun toward the scene), game axes, Z up";

/// What the highlights of the sun are.
pub const SUN_SPECULAR_MEANING: &'static str = 
    "the sun always contributes a runtime specular term (pbr.slang formula in REPORT.md §1), unlike the fully-baked local lights";

/// What the baked shadow of the sun is.
pub const SUN_SHADOW_MEANING: &'static str = 
    "index (0..3) into direct_light_shadows (and the probe dlshd atlas) that carries this sun's baked visibility, 1 - channel[bakedShadowChannel] = vis; null means this map has no baked sun shadow at all (vis = 1), from the first light_environment's bakedshadowindex (fallback bakelightindex), not m_bakedShadows[0] (that array indexes baked local lights, not the sun)";

/// The colour space of a tint.
pub const TINT_SPACE: &'static str = 
    "linear (extras.tint is sRGB->linear converted, same as baseColorFactor)";

/// What the textures of a material refer to.
pub const TEXTURE_REF_MEANING: &'static str = 
    "every *Texture key (baseColorTexture, normalTexture, aoTexture, metalnessTexture, layers.layer2ColorTexture, ...) is an index into this file's top-level textures[], never a glTF texture/image index (this exporter writes neither); a 4x4 single-mip source instead appears as the sibling *Constant key (raw pre-codec RGBA8 bytes) plus *ConstantCodec (and, for a color-space-sensitive slot, *ConstantColorSpace) -- see textures[]/texturesMeaning and native_texture::Loaded's doc comment";

/// What is written of the materials of environments.
pub const ENV_MATERIALS_MEANING: &'static str = 
    "csgo_environment/csgo_environment_blend materials (s6f3a7_env_materials.md): extras.env1 is layer 1's own height/roughness/colour inputs, present whenever g_tHeight1 resolves; extras.envLayer2 additionally carries layer 2's (only when csgo_environment_blend AND colour/normal/height all resolve). height{1,2}Texture/height{1,2}Constant: R = height (the blend-weight input to GetBlendWeights, csgo_environment.frag.slang:348-377), G = tintMask{1,2}'s source (remapped by tintMaskContrast{1,2}/tintMaskBrightness{1,2} into 0..1, gates how much of colorAdjust{1,2} shows through, csgo_environment.frag.slang:767,781-787), B = AO for alpha-tested materials only (not read by this viewer), A = metalness (zeroed unless metalnessEnabled{1,2}). roughnessContrast{1,2}/roughnessBrightness{1,2}: the same remap applied to the normal map's own B channel (roughness), csgo_environment.frag.slang:769. normalContrast{1,2}: normalize(mix(Up, decodedNormal, contrast)) after the HemiOct decode (csgo_environment.frag.slang:486-505 LayerNormal). aoLevels{1,2} = (x,y,z): the ambient-occlusion curve mix(x,z,pow(ao,max(y,0.001))) applied to the base-colour alpha (csgo_environment.frag.slang:1046), lerped between layers by the blend weight for envLayer2. colorAdjust{1,2}/adjust{1,2}: 16-float column-major mat4 (crates/s2render/src/color_correct.rs, RenderMaterial.cs:671-744) -- colorAdjust is g_mTextureColorAdjust{1,2} (tinted), adjust is g_mTextureAdjust{1,2} (tint forced white), mixed by tintMask{1,2} and, when colorCorrectionMode{1,2}==1, adjust replaces the raw texel as the base before that mix. envLayer2 additionally carries heightScale{1,2}/heightZeroPoint{1,2}/blendSoftness2 (GetBlendWeights' own inputs) and uvScale2/uvOffset2 (layer 2's UV transform, csgo_environment.vert.slang:175-180, applied to every layer-2 sample). envLayer2.unsupported (present only when non-empty): [{flag, why}] for a material that sets F_USE_NEW_BLENDING/F_ENABLE_LAYER_3/a biplanar g_nUVSet -- none of which this exporter/viewer implements, so weight2 (and everything mixed by it) is wrong for that material.";

/// What the scale of the lightmap coordinates is.
pub const UV_SCALE_MEANING: &'static str = 
    "TEXCOORD_1 is already multiplied by this scale at export time (complex.vert.slang:347); the viewer must not multiply again";

/// When the fallbacks of the lightmaps are used.
pub const FALLBACKS_MEANING: &'static str = 
    "always generated (small); use when the browser lacks EXT_texture_compression_bptc/rgtc for the raw BC6H/BC4/BC5/BC7 files above, or when a lightmap file's compressed format has no known WebGL2 mapping at all (that raw file is then skipped and reported in dropped.missingResources instead)";

/// How baked light is read.
pub const LPV_SCALE_MEANING: &'static str = 
    "_LPV is UNSIGNED_SHORT normalized (VEC4); actual value = accessor value * lpvScale for rgb (irradiance) and a (sun visibility, already 0..1 so effectively unscaled since lpvScale>=1)";

/// Where a primitive has its light from.
pub const LIGHTING_MEANING: &'static str = 
    "primitive extras.lighting is one of \"lightmap\" (reads TEXCOORD_1 against the lightmap files above), \"unlit\" (no indirect term), \"probe\" (reads the primitive's own _LPV accessor)";

/// What the order of overlays is.
pub const OVERLAY_ORDER_MEANING: &'static str = 
    "node extras.overlayOrder absent means 0 (no explicit paint order among overlapping overlays)";

/// What binds an instance to a probe volume.
pub const HANDSHAKE_MEANING: &'static str = 
    "node extras.lightProbeHandshake (when present) is m_nLightProbeVolumePrecomputedHandshake, the scene object/fragment's precomputed probe-volume binding";

/// The sun, as the bits of singles.
#[derive(Debug, Clone, Copy)]
pub struct Sun {
    /// Where its light goes.
    pub direction: [u32; 3],
    /// Where it stands.
    pub to_sun: [u32; 3],
    pub color: [u32; 3],
    /// The colour made linear, times the brightness.
    pub color_linear: [u32; 3],
    pub brightness: u32,
    pub brightness_scale: u32,
    pub skycolor: [u32; 3],
    pub skyintensity: u32,
}

/// An optional number, `null` where there is none.
pub open spec fn int_or_null(n: Option<i64>) -> JsonView {
    match n {
        Some(n) => JsonView::Int(n),
        None => JsonView::Null,
    }
}

/// The sun, as a document.
pub open spec fn sun_json(s: Sun, shadow_channel: Option<i64>) -> JsonView {
    JsonView::Object(
        crate::json::empty().push(
            ("direction"@, JsonView::Array(crate::json::floats(s.direction@))),
        ).push(("directionMeaning"@, JsonView::Str(SUN_DIRECTION_MEANING@))).push(
            ("toSun"@, JsonView::Array(crate::json::floats(s.to_sun@))),
        ).push(("color"@, JsonView::Array(crate::json::floats(s.color@)))).push(
            ("colorSpace"@, JsonView::Str("srgb"@)),
        ).push(("colorLinear"@, JsonView::Array(crate::json::floats(s.color_linear@)))).push(
            ("brightness"@, JsonView::Single(s.brightness)),
        ).push(("brightnessScale"@, JsonView::Single(s.brightness_scale))).push(
            ("skycolor"@, JsonView::Array(crate::json::floats(s.skycolor@))),
        ).push(("skyintensity"@, JsonView::Single(s.skyintensity))).push(
            ("renderSpecular"@, JsonView::Bool(true)),
        ).push(("renderSpecularMeaning"@, JsonView::Str(SUN_SPECULAR_MEANING@))).push(
            ("bakedShadowChannel"@, int_or_null(shadow_channel)),
        ).push(("bakedShadowChannelMeaning"@, JsonView::Str(SUN_SHADOW_MEANING@))),
    )
}

/// The sun, as a document.
pub fn write_sun(s: &Sun, shadow_channel: Option<i64>) -> (r: Json)
    ensures
        r@ == sun_json(*s, shadow_channel),
{
    let mut m: Members = Members::new();
    m.put_singles("direction", s.direction.as_slice());
    m.put_text("directionMeaning", SUN_DIRECTION_MEANING);
    m.put_singles("toSun", s.to_sun.as_slice());
    m.put_singles("color", s.color.as_slice());
    m.put_text("colorSpace", "srgb");
    m.put_singles("colorLinear", s.color_linear.as_slice());
    m.put_single("brightness", s.brightness);
    m.put_single("brightnessScale", s.brightness_scale);
    m.put_singles("skycolor", s.skycolor.as_slice());
    m.put_single("skyintensity", s.skyintensity);
    m.put_bool("renderSpecular", true);
    m.put_text("renderSpecularMeaning", SUN_SPECULAR_MEANING);
    match shadow_channel {
        Some(c) => {
            m.put_int("bakedShadowChannel", c);
        },
        None => {
            m.put_null("bakedShadowChannel");
        },
    }
    m.put_text("bakedShadowChannelMeaning", SUN_SHADOW_MEANING);
    m.object()
}

/// The budget of one kind of texture.
pub open spec fn budget_json(role: TextureRole, max_texture: u32, note: Seq<char>) -> JsonView {
    JsonView::Object(
        crate::json::empty().push(
            (
                "maxSide"@,
                JsonView::UInt(crate::gltf_material::side_limit(role, max_texture) as u64),
            ),
        ).push(("note"@, JsonView::Str(note))),
    )
}

/// The budget of one kind of texture.
fn write_budget(role: TextureRole, max_texture: u32, note: &str) -> (r: Json)
    ensures
        r@ == budget_json(role, max_texture, note@),
{
    let mut m: Members = Members::new();
    m.put_uint("maxSide", role.max_side(max_texture) as u64);
    m.put_text("note", note);
    m.object()
}

/// The budget of textures.
pub open spec fn texture_budget_json(max_texture: u32, hits: u32, saved: u64) -> JsonView {
    let by_type = crate::json::empty().push(
        ("color"@, budget_json(TextureRole::Color, max_texture, COLOR_NOTE@)),
    ).push(("normal"@, budget_json(TextureRole::Normal, max_texture, NORMAL_NOTE@))).push(
        ("mask"@, budget_json(TextureRole::Mask, max_texture, MASK_NOTE@)),
    );
    let dedup = crate::json::empty().push(("meaning"@, JsonView::Str(DEDUP_MEANING@))).push(
        ("hits"@, JsonView::UInt(hits as u64)),
    ).push(("bytesSaved"@, JsonView::UInt(saved)));
    JsonView::Object(
        crate::json::empty().push(("maxSide"@, JsonView::UInt(max_texture as u64))).push(
            ("byType"@, JsonView::Object(by_type)),
        ).push(("dedup"@, JsonView::Object(dedup))),
    )
}

/// The budget of textures.
fn write_texture_budget(max_texture: u32, hits: u32, saved: u64) -> (r: Json)
    ensures
        r@ == texture_budget_json(max_texture, hits, saved),
{
    let mut by_type: Members = Members::new();
    by_type.put("color", write_budget(TextureRole::Color, max_texture, COLOR_NOTE));
    by_type.put("normal", write_budget(TextureRole::Normal, max_texture, NORMAL_NOTE));
    by_type.put("mask", write_budget(TextureRole::Mask, max_texture, MASK_NOTE));
    let mut dedup: Members = Members::new();
    dedup.put_text("meaning", DEDUP_MEANING);
    dedup.put_uint("hits", hits as u64);
    dedup.put_uint("bytesSaved", saved);
    let mut m: Members = Members::new();
    m.put_uint("maxSide", max_texture as u64);
    m.put_object("byType", by_type);
    m.put_object("dedup", dedup);
    m.object()
}

/// How the geometry is compressed.
pub open spec fn compression_json(float_meshes: int) -> JsonView {
    let required = Seq::<JsonView>::empty().push(JsonView::Str("KHR_mesh_quantization"@)).push(
        JsonView::Str("KHR_meshopt_compression"@),
    );
    JsonView::Object(
        crate::json::empty().push(("extensionsRequired"@, JsonView::Array(required))).push(
            ("position"@, JsonView::Str(POSITION_NOTE@)),
        ).push(("positionFloatFallbackMeshes"@, JsonView::UInt(float_meshes as u64))).push(
            ("normal"@, JsonView::Str(NORMAL_STORAGE@)),
        ).push(("texcoord0"@, JsonView::Str(TEXCOORD_NOTE@))).push(
            ("meshoptVersion"@, JsonView::UInt(1)),
        ).push(("meshoptLevel"@, JsonView::UInt(3))).push(
            ("note"@, JsonView::Str(COMPRESSION_NOTE@)),
        ),
    )
}

/// How the geometry is compressed.
fn write_compression(float_meshes: usize) -> (r: Json)
    ensures
        r@ == compression_json(float_meshes as int),
{
    let mut required: Vec<Json> = Vec::new();
    assert(crate::json::json_views(required@) =~= Seq::<JsonView>::empty());
    add_item(&mut required, crate::json::text("KHR_mesh_quantization"));
    add_item(&mut required, crate::json::text("KHR_meshopt_compression"));
    let mut m: Members = Members::new();
    m.put_array("extensionsRequired", required);
    m.put_text("position", POSITION_NOTE);
    m.put_uint("positionFloatFallbackMeshes", float_meshes as u64);
    m.put_text("normal", NORMAL_STORAGE);
    m.put_text("texcoord0", TEXCOORD_NOTE);
    m.put_uint("meshoptVersion", 1);
    m.put_uint("meshoptLevel", 3);
    m.put_text("note", COMPRESSION_NOTE);
    m.object()
}

/// How much there is of everything in the document.
#[derive(Debug, Clone, Copy)]
pub struct Sizes {
    pub nodes: usize,
    pub meshes: usize,
    pub materials: usize,
    pub textures: usize,
    pub geometry_bytes: usize,
    pub texture_bytes: u64,
    pub float_meshes: usize,
    pub probe_volumes: usize,
}

/// The counts, as a document.
pub open spec fn counts_json(s: Sizes, c: Counts) -> JsonView {
    JsonView::Object(
        crate::json::empty().push(("nodes"@, JsonView::UInt(s.nodes as u64))).push(
            ("meshes"@, JsonView::UInt(s.meshes as u64)),
        ).push(("triangles"@, JsonView::UInt(c.triangles))).push(
            ("materials"@, JsonView::UInt(s.materials as u64)),
        ).push(("textures"@, JsonView::UInt(s.textures as u64))).push(
            ("geometryBytes"@, JsonView::UInt(s.geometry_bytes as u64)),
        ).push(("textureBytes"@, JsonView::UInt(s.texture_bytes))).push(
            ("sceneObjectsTotal"@, JsonView::UInt(c.scene_objects_total as u64)),
        ).push(("sceneObjectsPlaced"@, JsonView::UInt(c.scene_objects_placed as u64))).push(
            ("aggregatesTotal"@, JsonView::UInt(c.aggregates_total as u64)),
        ).push(("aggregatesFallback"@, JsonView::UInt(c.aggregates_fallback as u64))).push(
            ("fragmentsTotal"@, JsonView::UInt(c.fragments_total as u64)),
        ).push(("fragmentsPlaced"@, JsonView::UInt(c.fragments_placed as u64))).push(
            ("lightmapDrawCalls"@, JsonView::UInt(c.lightmap_draw_calls as u64)),
        ).push(("lightmapTriangles"@, JsonView::UInt(c.lightmap_triangles))).push(
            ("probeDrawCalls"@, JsonView::UInt(c.probe_draw_calls as u64)),
        ).push(("probeTriangles"@, JsonView::UInt(c.probe_triangles))).push(
            ("unlitDrawCalls"@, JsonView::UInt(c.unlit_draw_calls as u64)),
        ).push(("unlitTriangles"@, JsonView::UInt(c.unlit_triangles))).push(
            ("probeSampleFailures"@, JsonView::UInt(c.probe_sample_failures as u64)),
        ).push(("probeVolumesLoaded"@, JsonView::UInt(s.probe_volumes as u64))).push(
            ("probeVolumesSkipped"@, JsonView::UInt(c.probe_volumes_skipped as u64)),
        ),
    )
}

/// The counts, as a document.
fn write_counts(s: &Sizes, c: &Counts) -> (r: Json)
    ensures
        r@ == counts_json(*s, *c),
{
    let mut m: Members = Members::new();
    m.put_uint("nodes", s.nodes as u64);
    m.put_uint("meshes", s.meshes as u64);
    m.put_uint("triangles", c.triangles);
    m.put_uint("materials", s.materials as u64);
    m.put_uint("textures", s.textures as u64);
    m.put_uint("geometryBytes", s.geometry_bytes as u64);
    m.put_uint("textureBytes", s.texture_bytes);
    m.put_uint("sceneObjectsTotal", c.scene_objects_total as u64);
    m.put_uint("sceneObjectsPlaced", c.scene_objects_placed as u64);
    m.put_uint("aggregatesTotal", c.aggregates_total as u64);
    m.put_uint("aggregatesFallback", c.aggregates_fallback as u64);
    m.put_uint("fragmentsTotal", c.fragments_total as u64);
    m.put_uint("fragmentsPlaced", c.fragments_placed as u64);
    m.put_uint("lightmapDrawCalls", c.lightmap_draw_calls as u64);
    m.put_uint("lightmapTriangles", c.lightmap_triangles);
    m.put_uint("probeDrawCalls", c.probe_draw_calls as u64);
    m.put_uint("probeTriangles", c.probe_triangles);
    m.put_uint("unlitDrawCalls", c.unlit_draw_calls as u64);
    m.put_uint("unlitTriangles", c.unlit_triangles);
    m.put_uint("probeSampleFailures", c.probe_sample_failures as u64);
    m.put_uint("probeVolumesLoaded", s.probe_volumes as u64);
    m.put_uint("probeVolumesSkipped", c.probe_volumes_skipped as u64);
    m.object()
}

/// What was left out, as a document.
pub open spec fn dropped_json(r: ReportView) -> JsonView {
    JsonView::Object(
        crate::json::empty().push(
            ("toolsMaterials"@, JsonView::Array(crate::report::drops_json(r.tools_dropped))),
        ).push(
            ("missingResources"@, JsonView::Array(crate::json::strs(r.missing_resources))),
        ).push(("hiddenEntities"@, JsonView::Array(r.hidden_entities))),
    )
}

/// A list of documents once more.
fn copy_items(v: &Vec<Json>) -> (r: Vec<Json>)
    ensures
        crate::json::json_views(r@) == crate::json::json_views(v@),
{
    let ghost all = crate::json::json_views(v@);
    let mut out: Vec<Json> = Vec::new();
    let mut i: usize = 0;
    while i < v.len()
        invariant
            i <= v@.len(),
            all == crate::json::json_views(v@),
            crate::json::json_views(out@) =~= all.take(i as int),
        decreases v@.len() - i,
    {
        let item: Json = copy(&v[i]);
        assert(all.take(i + 1) =~= all.take(i as int).push(item@));
        add_item(&mut out, item);
        i += 1;
    }
    assert(all.take(i as int) =~= all);
    out
}

/// What was left out, as a document.
fn write_dropped(r: &Report) -> (j: Json)
    ensures
        j@ == dropped_json(r@),
{
    let mut m: Members = Members::new();
    m.put_array("toolsMaterials", r.tools_json());
    m.put_texts("missingResources", &r.missing_resources);
    m.put_array("hiddenEntities", copy_items(&r.hidden_entities));
    m.object()
}

/// Documents by number, as members.
pub open spec fn numbered_members(v: Seq<(u32, JsonView)>) -> Seq<(Seq<char>, JsonView)> {
    Seq::new(v.len(), |i: int| (crate::text::decimal_text(v[i].0 as int), v[i].1))
}

/// What is written beside the materials.
pub open spec fn material_extras_json(v: Seq<(u32, JsonView)>) -> JsonView {
    JsonView::Object(
        crate::json::empty().push(("tintColorSpace"@, JsonView::Str(TINT_SPACE@))).push(
            ("textureRefMeaning"@, JsonView::Str(TEXTURE_REF_MEANING@)),
        ).push(("envMaterialsMeaning"@, JsonView::Str(ENV_MATERIALS_MEANING@))).push(
            ("byMaterial"@, JsonView::Object(numbered_members(v))),
        ),
    )
}

/// What is written beside the materials.
fn write_material_extras(v: &Vec<(u32, Json)>) -> (r: Json)
    ensures
        r@ == material_extras_json(crate::report::numbered_views(v@)),
{
    let ghost all = numbered_members(crate::report::numbered_views(v@));
    let mut by_material: Members = Members::new();
    let mut i: usize = 0;
    assert(by_material@ =~= all.take(0));
    while i < v.len()
        invariant
            i <= v@.len(),
            all == numbered_members(crate::report::numbered_views(v@)),
            by_material@ == all.take(i as int),
        decreases v@.len() - i,
    {
        let key: String = decimal(v[i].0 as u64);
        let value: Json = copy(&v[i].1);
        assert(all.take(i + 1) =~= all.take(i as int).push((key@, value@)));
        by_material.put(key.as_str(), value);
        i += 1;
    }
    assert(all.take(i as int) =~= all);
    let mut m: Members = Members::new();
    m.put_text("tintColorSpace", TINT_SPACE);
    m.put_text("textureRefMeaning", TEXTURE_REF_MEANING);
    m.put_text("envMaterialsMeaning", ENV_MATERIALS_MEANING);
    m.put_object("byMaterial", by_material);
    m.object()
}

/// A lightmap, as a document.
pub open spec fn lightmap_json(f: crate::lightmaps::LightmapView) -> JsonView {
    JsonView::Object(
        crate::json::empty().push(("file"@, JsonView::Str(f.file_name))).push(
            ("format"@, JsonView::Str(f.format)),
        ).push(("width"@, JsonView::UInt(f.width as u64))).push(
            ("height"@, JsonView::UInt(f.height as u64)),
        ).push(("mipLevel"@, JsonView::UInt(f.mip_level as u64))).push(
            ("sha256"@, JsonView::Str(f.sha256)),
        ).push(("byteLength"@, JsonView::UInt(f.byte_length as u64))),
    )
}

/// The lightmaps, as documents.
pub open spec fn lightmaps_json(v: Seq<LightmapFile>) -> Seq<JsonView> {
    Seq::new(v.len(), |i: int| lightmap_json(v[i]@))
}

/// The lightmaps, as documents.
fn write_lightmaps(v: &Vec<LightmapFile>) -> (r: Vec<Json>)
    ensures
        crate::json::json_views(r@) == lightmaps_json(v@),
{
    let ghost all = lightmaps_json(v@);
    let mut out: Vec<Json> = Vec::new();
    let mut i: usize = 0;
    while i < v.len()
        invariant
            i <= v@.len(),
            all == lightmaps_json(v@),
            crate::json::json_views(out@) =~= all.take(i as int),
        decreases v@.len() - i,
    {
        let f: &LightmapFile = &v[i];
        let mut m: Members = Members::new();
        m.put_text("file", f.file_name.as_str());
        m.put_text("format", f.format);
        m.put_uint("width", f.width as u64);
        m.put_uint("height", f.height as u64);
        m.put_uint("mipLevel", f.mip_level as u64);
        m.put_text("sha256", f.sha256.as_str());
        m.put_uint("byteLength", f.byte_length as u64);
        let item: Json = m.object();
        assert(all.take(i + 1) =~= all.take(i as int).push(item@));
        add_item(&mut out, item);
        i += 1;
    }
    assert(all.take(i as int) =~= all);
    out
}

/// An optional single, `null` where there is none.
pub open spec fn single_or_null(f: Option<u32>) -> JsonView {
    match f {
        Some(f) => JsonView::Single(f),
        None => JsonView::Null,
    }
}

/// A fallback of a lightmap, as a document.
pub open spec fn fallback_json(f: FallbackFile) -> JsonView {
    JsonView::Object(
        crate::json::empty().push(("file"@, JsonView::Str(f.file_name@))).push(
            ("width"@, JsonView::UInt(f.width as u64)),
        ).push(("height"@, JsonView::UInt(f.height as u64))).push(
            ("byteLength"@, JsonView::UInt(f.byte_length as u64)),
        ).push(("encoding"@, JsonView::Str(f.encoding@))).push(
            ("rgbmRange"@, single_or_null(f.rgbm_range)),
        ).push(("decode"@, JsonView::Str(f.decode@))),
    )
}

/// The fallbacks, as documents.
pub open spec fn fallbacks_json(v: Seq<FallbackFile>) -> Seq<JsonView> {
    Seq::new(v.len(), |i: int| fallback_json(v[i]))
}

/// The fallbacks, as documents.
fn write_fallbacks(v: &Vec<FallbackFile>) -> (r: Vec<Json>)
    ensures
        crate::json::json_views(r@) == fallbacks_json(v@),
{
    let ghost all = fallbacks_json(v@);
    let mut out: Vec<Json> = Vec::new();
    let mut i: usize = 0;
    while i < v.len()
        invariant
            i <= v@.len(),
            all == fallbacks_json(v@),
            crate::json::json_views(out@) =~= all.take(i as int),
        decreases v@.len() - i,
    {
        let f: &FallbackFile = &v[i];
        let mut m: Members = Members::new();
        m.put_text("file", f.file_name.as_str());
        m.put_uint("width", f.width as u64);
        m.put_uint("height", f.height as u64);
        m.put_uint("byteLength", f.byte_length as u64);
        m.put_text("encoding", f.encoding);
        match f.rgbm_range {
            Some(x) => {
                m.put_single("rgbmRange", x);
            },
            None => {
                m.put_null("rgbmRange");
            },
        }
        m.put_text("decode", f.decode);
        let item: Json = m.object();
        assert(all.take(i + 1) =~= all.take(i as int).push(item@));
        add_item(&mut out, item);
        i += 1;
    }
    assert(all.take(i as int) =~= all);
    out
}

/// The lightmaps of a map, and how they are read.
#[derive(Debug)]
pub struct Lighting {
    pub lightmap_version: i64,
    /// The scale of the lightmap coordinates, as the bits of two singles.
    pub uv_scale: [u32; 2],
    pub lightmaps: Vec<LightmapFile>,
    pub fallbacks: Vec<FallbackFile>,
}

/// The lightmaps of a map, as a document.
pub open spec fn lighting_json(l: Lighting) -> JsonView {
    JsonView::Object(
        crate::json::empty().push(
            ("lightmapFormatVersion"@, JsonView::Int(l.lightmap_version)),
        ).push(("uvScale"@, JsonView::Array(crate::json::floats(l.uv_scale@)))).push(
            ("uvScaleMeaning"@, JsonView::Str(UV_SCALE_MEANING@)),
        ).push(("lightmaps"@, JsonView::Array(lightmaps_json(l.lightmaps@)))).push(
            ("lightmapFallbacks"@, JsonView::Array(fallbacks_json(l.fallbacks@))),
        ).push(("lightmapFallbacksMeaning"@, JsonView::Str(FALLBACKS_MEANING@))).push(
            ("lpvScale"@, JsonView::Single(LPV_SCALE)),
        ).push(("lpvScaleMeaning"@, JsonView::Str(LPV_SCALE_MEANING@))).push(
            ("extrasLightingMeaning"@, JsonView::Str(LIGHTING_MEANING@)),
        ).push(("overlayOrderMeaning"@, JsonView::Str(OVERLAY_ORDER_MEANING@))).push(
            ("lightProbeHandshakeMeaning"@, JsonView::Str(HANDSHAKE_MEANING@)),
        ),
    )
}

/// The lightmaps of a map, as a document.
fn write_lighting(l: &Lighting) -> (r: Json)
    ensures
        r@ == lighting_json(*l),
{
    let mut m: Members = Members::new();
    m.put_int("lightmapFormatVersion", l.lightmap_version);
    m.put_singles("uvScale", l.uv_scale.as_slice());
    m.put_text("uvScaleMeaning", UV_SCALE_MEANING);
    m.put_array("lightmaps", write_lightmaps(&l.lightmaps));
    m.put_array("lightmapFallbacks", write_fallbacks(&l.fallbacks));
    m.put_text("lightmapFallbacksMeaning", FALLBACKS_MEANING);
    m.put_single("lpvScale", LPV_SCALE);
    m.put_text("lpvScaleMeaning", LPV_SCALE_MEANING);
    m.put_text("extrasLightingMeaning", LIGHTING_MEANING);
    m.put_text("overlayOrderMeaning", OVERLAY_ORDER_MEANING);
    m.put_text("lightProbeHandshakeMeaning", HANDSHAKE_MEANING);
    m.object()
}

/// What goes into a report beside the export itself.
#[derive(Debug)]
pub struct Surroundings {
    pub max_texture: u32,
    pub sun: Option<Sun>,
    pub shadow_channel: Option<i64>,
    pub probe_volumes: usize,
    pub lighting: Lighting,
    pub sky: Option<Json>,
    pub fog: Option<Json>,
    pub post_processing: Option<Json>,
    pub sky_camera: Option<SkyCameraInfo>,
}

/// The sky camera of a map, `null` where it is no skybox.
pub open spec fn camera_or_null(c: Option<SkyCameraInfo>) -> JsonView {
    match c {
        Some(c) => crate::skybox::camera_json(c),
        None => JsonView::Null,
    }
}

/// An optional document, `null` where there is none.
pub open spec fn doc_or_null(j: Option<Json>) -> JsonView {
    match j {
        Some(j) => j@,
        None => JsonView::Null,
    }
}

/// Puts an optional document in.
fn put_doc(m: &mut Members, key: &str, j: &Option<Json>)
    ensures
        final(m)@ == old(m)@.push((key@, doc_or_null(*j))),
{
    match j {
        Some(j) => {
            m.put(key, copy(j));
        },
        None => {
            m.put_null(key);
        },
    }
}

/// How much there is of everything in the document.
pub open spec fn sizes_of(c: crate::export::CtxView, probe_volumes: usize) -> Sizes {
    Sizes {
        nodes: c.builder.nodes.len() as usize,
        meshes: c.builder.meshes.len() as usize,
        materials: c.builder.materials.len() as usize,
        textures: c.catalog.entries.len() as usize,
        geometry_bytes: (c.builder.bin.len() - c.builder.image_bytes) as usize,
        texture_bytes: crate::native_texture::bytes_of(
            c.catalog.entries,
            c.catalog.entries.len() as int,
        ) as u64,
        float_meshes: c.builder.float_meshes as usize,
        probe_volumes,
    }
}

/// The sun, or `null`.
pub open spec fn sun_or_null(s: Surroundings) -> JsonView {
    match s.sun {
        Some(sun) => sun_json(sun, s.shadow_channel),
        None => JsonView::Null,
    }
}

/// The report of an export, as a document.
pub open spec fn report_json(c: crate::export::CtxView, s: Surroundings) -> JsonView {
    let sizes = sizes_of(c, s.probe_volumes);
    JsonView::Object(
        crate::json::empty().push(("formatVersion"@, JsonView::UInt(3))).push(
            (
                "textureBudget"@,
                texture_budget_json(
                    s.max_texture,
                    c.catalog.dedup_hits,
                    c.catalog.dedup_bytes_saved,
                ),
            ),
        ).push(
            (
                "textures"@,
                JsonView::Array(
                    Seq::new(
                        c.catalog.entries.len(),
                        |i: int| crate::native_texture::entry_json(c.catalog.entries[i]),
                    ),
                ),
            ),
        ).push(("texturesMeaning"@, JsonView::Str(TEXTURES_MEANING@))).push(
            ("geometryCompression"@, compression_json(c.builder.float_meshes)),
        ).push(("sun"@, sun_or_null(s))).push(
            ("counts"@, counts_json(sizes, c.report.counts)),
        ).push(
            (
                "perMaterialTriangles"@,
                JsonView::Array(crate::report::materials_json(c.report.per_material)),
            ),
        ).push(("dropped"@, dropped_json(c.report))).push(
            ("entities"@, JsonView::Array(crate::report::classes_json(c.report.class_stats))),
        ).push(("materialExtras"@, material_extras_json(c.report.material_extras))).push(
            ("lighting"@, lighting_json(s.lighting)),
        ).push(("sky"@, doc_or_null(s.sky))).push(("fog"@, doc_or_null(s.fog))).push(
            ("postProcessing"@, doc_or_null(s.post_processing)),
        ).push(("skyCamera"@, camera_or_null(s.sky_camera))),
    )
}

/// What an export writes can be folded into the export of an outer map where the map has a sky
/// camera, and only there: the report tells of the camera that the map has, and its lighting can
/// hold lists of files.
pub proof fn a_map_with_a_sky_camera_can_be_merged(c: crate::export::CtxView, s: Surroundings)
    ensures
        crate::skybox::lighting_is_open(report_json(c, s)),
        crate::skybox::camera_of(report_json(c, s)) == (match s.sky_camera {
            Some(camera) => Some(crate::skybox::camera_json(camera)),
            None => None::<JsonView>,
        }),
{
    let m = report_json(c, s)->Object_0;
    lemma_report_keys(c, s);
    crate::json::lemma_index_from(m, "lighting"@, 0);
    crate::json::lemma_index_from(m, "skyCamera"@, 0);
    assert(m[11].0 == "lighting"@);
    assert(m[15].0 == "skyCamera"@);
}

/// No other key of a report is the one of the lighting or of the sky camera.
proof fn lemma_report_keys(c: crate::export::CtxView, s: Surroundings)
    ensures
        ({
            let m = report_json(c, s)->Object_0;
            &&& m.len() == 16
            &&& m[11] == ("lighting"@, lighting_json(s.lighting))
            &&& m[15] == ("skyCamera"@, camera_or_null(s.sky_camera))
            &&& forall|i: int| 0 <= i < 16 && i != 11 ==> (#[trigger] m[i]).0 != "lighting"@
            &&& forall|i: int| 0 <= i < 16 && i != 15 ==> (#[trigger] m[i]).0 != "skyCamera"@
        }),
{
    reveal_strlit("formatVersion");
    reveal_strlit("textureBudget");
    reveal_strlit("textures");
    reveal_strlit("texturesMeaning");
    reveal_strlit("geometryCompression");
    reveal_strlit("sun");
    reveal_strlit("counts");
    reveal_strlit("perMaterialTriangles");
    reveal_strlit("dropped");
    reveal_strlit("entities");
    reveal_strlit("materialExtras");
    reveal_strlit("lighting");
    reveal_strlit("sky");
    reveal_strlit("fog");
    reveal_strlit("postProcessing");
    reveal_strlit("skyCamera");
    let m = report_json(c, s)->Object_0;
    assert("textures"@[0] != "lighting"@[0]);
    assert("entities"@[0] != "lighting"@[0]);
    assert forall|i: int| 0 <= i < 16 && i != 11 implies (#[trigger] m[i]).0 != "lighting"@ by {
        assert(m[i].0.len() != 8 || m[i].0[0] != 'l');
    }
    assert forall|i: int| 0 <= i < 16 && i != 15 implies (#[trigger] m[i]).0 != "skyCamera"@ by {
        assert(m[i].0.len() != 9);
    }
}

/// The report of an export, as a document.
pub fn write_report(ctx: &Ctx, s: &Surroundings) -> (r: Json)
    requires
        crate::export::sound(ctx@),
        crate::native_texture::bytes_of(
            ctx@.catalog.entries,
            ctx@.catalog.entries.len() as int,
        ) <= u64::MAX,
    ensures
        r@ == report_json(ctx@, *s),
{
    let sizes: Sizes = Sizes {
        nodes: ctx.builder.node_count(),
        meshes: ctx.builder.mesh_count(),
        materials: ctx.builder.material_count(),
        textures: ctx.catalog.count(),
        geometry_bytes: ctx.builder.geometry_bytes(),
        texture_bytes: ctx.catalog.total_bytes(),
        float_meshes: ctx.builder.position_float_fallback_meshes(),
        probe_volumes: s.probe_volumes,
    };
    let mut m: Members = Members::new();
    m.put_uint("formatVersion", 3);
    m.put(
        "textureBudget",
        write_texture_budget(
            s.max_texture,
            ctx.catalog.dedup_hits(),
            ctx.catalog.dedup_bytes_saved(),
        ),
    );
    m.put_array("textures", ctx.catalog.textures_json());
    m.put_text("texturesMeaning", TEXTURES_MEANING);
    m.put("geometryCompression", write_compression(sizes.float_meshes));
    match &s.sun {
        Some(sun) => {
            m.put("sun", write_sun(sun, s.shadow_channel));
        },
        None => {
            m.put_null("sun");
        },
    }
    m.put("counts", write_counts(&sizes, &ctx.report.counts));
    m.put_array("perMaterialTriangles", ctx.report.per_material_json());
    m.put("dropped", write_dropped(&ctx.report));
    m.put_array("entities", ctx.report.entities_json());
    m.put("materialExtras", write_material_extras(&ctx.report.material_extras));
    m.put("lighting", write_lighting(&s.lighting));
    put_doc(&mut m, "sky", &s.sky);
    put_doc(&mut m, "fog", &s.fog);
    put_doc(&mut m, "postProcessing", &s.post_processing);
    match &s.sky_camera {
        Some(c) => {
            m.put("skyCamera", write_camera(c));
        },
        None => {
            m.put_null("skyCamera");
        },
    }
    m.object()
}

/// The files of lightmaps.
pub open spec fn lightmap_files(v: Seq<LightmapFile>) -> Seq<(Seq<char>, Seq<u8>)> {
    Seq::new(v.len(), |i: int| (v[i].file_name@, v[i].bytes@))
}

/// The files of fallbacks.
pub open spec fn fallback_files(v: Seq<FallbackFile>) -> Seq<(Seq<char>, Seq<u8>)> {
    Seq::new(v.len(), |i: int| (v[i].file_name@, v[i].bytes@))
}

/// Takes the files of lightmaps.
fn take_lightmap_files(v: Vec<LightmapFile>) -> (r: Vec<(String, Vec<u8>)>)
    ensures
        crate::native_texture::file_views(r@) == lightmap_files(v@),
{
    let ghost all = lightmap_files(v@);
    let ghost total = v@;
    let mut v: Vec<LightmapFile> = v;
    let mut out: Vec<(String, Vec<u8>)> = Vec::new();
    let ghost mut n: int = 0;
    assert(total.skip(0) =~= total);
    while v.len() > 0
        invariant
            0 <= n <= total.len(),
            v@ == total.skip(n),
            all == lightmap_files(total),
            crate::native_texture::file_views(out@) =~= all.take(n),
        decreases v@.len(),
    {
        let f: LightmapFile = v.remove(0);
        let entry: (String, Vec<u8>) = (f.file_name, f.bytes);
        proof {
            assert(f == total[n]);
            assert(v@ =~= total.skip(n + 1));
            assert(crate::native_texture::file_views(out@.push(entry))
                =~= crate::native_texture::file_views(out@).push((entry.0@, entry.1@)));
            assert(all.take(n + 1) =~= all.take(n).push(all[n]));
            n = n + 1;
        }
        out.push(entry);
    }
    assert(all.take(n) =~= all);
    out
}

/// Takes the files of fallbacks.
fn take_fallback_files(v: Vec<FallbackFile>) -> (r: Vec<(String, Vec<u8>)>)
    ensures
        crate::native_texture::file_views(r@) == fallback_files(v@),
{
    let ghost all = fallback_files(v@);
    let ghost total = v@;
    let mut v: Vec<FallbackFile> = v;
    let mut out: Vec<(String, Vec<u8>)> = Vec::new();
    let ghost mut n: int = 0;
    assert(total.skip(0) =~= total);
    while v.len() > 0
        invariant
            0 <= n <= total.len(),
            v@ == total.skip(n),
            all == fallback_files(total),
            crate::native_texture::file_views(out@) =~= all.take(n),
        decreases v@.len(),
    {
        let f: FallbackFile = v.remove(0);
        let entry: (String, Vec<u8>) = (f.file_name, f.bytes);
        proof {
            assert(f == total[n]);
            assert(v@ =~= total.skip(n + 1));
            assert(crate::native_texture::file_views(out@.push(entry))
                =~= crate::native_texture::file_views(out@).push((entry.0@, entry.1@)));
            assert(all.take(n + 1) =~= all.take(n).push(all[n]));
            n = n + 1;
        }
        out.push(entry);
    }
    assert(all.take(n) =~= all);
    out
}

/// The files beside the geometry: the lightmaps, their fallbacks, those of the sky, the fog and the
/// grading, and the textures.
pub fn collect_files(
    lighting: Lighting,
    environment: Vec<(String, Vec<u8>)>,
    textures: Vec<(String, Vec<u8>)>,
) -> (r: Vec<(String, Vec<u8>)>)
    ensures
        crate::native_texture::file_views(r@) == lightmap_files(lighting.lightmaps@)
            + fallback_files(lighting.fallbacks@) + crate::native_texture::file_views(environment@)
            + crate::native_texture::file_views(textures@),
{
    let mut out: Vec<(String, Vec<u8>)> = take_lightmap_files(lighting.lightmaps);
    append_files(&mut out, take_fallback_files(lighting.fallbacks));
    append_files(&mut out, environment);
    append_files(&mut out, textures);
    out
}

/// The extensions that the materials of an export use.
pub open spec fn used_extensions(unlit: bool) -> Seq<Seq<char>> {
    if unlit {
        Seq::empty().push("KHR_materials_unlit"@)
    } else {
        Seq::empty()
    }
}

/// The document of an export, its binary data, and the files of its textures. `world` and
/// `entities` are the groups that the scene is made of.
pub fn finish_document(ctx: Ctx, world: u32, entities: u32) -> (r: (
    Json,
    Vec<u8>,
    Vec<(String, Vec<u8>)>,
))
    ensures
        r.0@ == crate::gltf::root_json(
            ctx@.builder,
            seq![world, entities],
            used_extensions(ctx@.report.unlit_used),
            JsonView::Object(crate::json::empty()),
        ),
        r.1@ == ctx@.builder.bin,
        crate::native_texture::file_views(r.2@) == ctx@.catalog.files,
{
    let mut roots: Vec<u32> = Vec::new();
    roots.push(world);
    roots.push(entities);
    assert(roots@ =~= seq![world, entities]);
    let mut used: Vec<String> = Vec::new();
    assert(crate::text::texts(used@) =~= Seq::<Seq<char>>::empty());
    if ctx.report.unlit_used {
        let name: String = "KHR_materials_unlit".to_owned();
        proof {
            crate::text::lemma_texts_push(used@, name);
        }
        used.push(name);
    }
    let (document, bin) = ctx.builder.finish(&roots, &used, Members::new().object());
    (document, bin, ctx.catalog.into_files())
}

/// The message where there are probe volumes without textures: `found` says whether any volume
/// names them.
pub fn atlas_gap(found: bool, volumes: usize) -> (r: Option<String>)
    ensures
        match r {
            Some(m) => !found && volumes > 0 && m@
                == "probe volumes present but no lightprobetexture/lightprobetexture_dlshd found"@,
            None => found || volumes == 0,
        },
{
    if !found && volumes > 0 {
        Some(
            "probe volumes present but no lightprobetexture/lightprobetexture_dlshd found".to_owned(),
        )
    } else {
        None
    }
}

} // verus!
