//! Materials as the document holds them: which textures a material asks for, and what is written of
//! it once they are there.

use crate::bits::{clamp_unit, F32_ONE, F32_ZERO};
use crate::json::{add_item, Json, JsonView, Members};
use crate::material::{
    AlphaMode, EnvHeightParams, EnvHeightView, EnvLayer2, EnvLayer2View, MetalnessSource,
    MetalnessView, ResolvedMaterial, ResolvedView, Vector2, Vector3, LAYER_BLEND_FORMULA,
};
use crate::native_texture::{ColorSpace, Loaded};
use crate::text::concat;
use vstd::prelude::*;

verus! {

/// What a texture is for, which sets how large it may be.
#[derive(Debug, Clone, Copy, PartialEq, Eq, Structural)]
pub enum TextureRole {
    Color,
    Normal,
    Mask,
}

/// The longest side of a texture that is no colour.
pub const SECONDARY_MAX_SIDE: u32 = 512;

/// The longest side of a texture, by what it is for.
pub open spec fn side_limit(role: TextureRole, base_max_side: u32) -> u32 {
    if role == TextureRole::Color || base_max_side < SECONDARY_MAX_SIDE {
        base_max_side
    } else {
        SECONDARY_MAX_SIDE
    }
}

impl TextureRole {
    /// The longest side of a texture, by what it is for.
    pub fn max_side(self, base_max_side: u32) -> (r: u32)
        ensures
            r == side_limit(self, base_max_side),
            r <= base_max_side,
    {
        match self {
            TextureRole::Color => base_max_side,
            _ => if base_max_side < SECONDARY_MAX_SIDE {
                base_max_side
            } else {
                SECONDARY_MAX_SIDE
            },
        }
    }
}

/// Where a tint goes: into the base colour, or, where a mask says which parts it reaches, beside it.
/// `linear` is the tint of the material and the instance, made linear, and `alpha` the opacity of
/// the instance.
pub fn base_color_factor(resolved: &ResolvedMaterial, linear: [u32; 3], alpha: u32) -> (r: (
    [u32; 4],
    Option<[u32; 3]>,
))
    ensures
        resolved.tint_mask ==> r.0@ == seq![
            F32_ONE,
            F32_ONE,
            F32_ONE,
            crate::bits::clamped_unit(alpha),
        ] && r.1 == Some(linear),
        !resolved.tint_mask ==> r.0@ == seq![
            crate::bits::clamped_unit(linear@[0]),
            crate::bits::clamped_unit(linear@[1]),
            crate::bits::clamped_unit(linear@[2]),
            crate::bits::clamped_unit(alpha),
        ] && r.1 is None,
{
    let alpha: u32 = clamp_unit(alpha);
    if resolved.tint_mask {
        return ([F32_ONE, F32_ONE, F32_ONE, alpha], Some(linear));
    }
    ([clamp_unit(linear[0]), clamp_unit(linear[1]), clamp_unit(linear[2]), alpha], None)
}

/// A texture that a material asks for.
#[derive(Debug, Clone)]
pub struct TextureRequest {
    pub path: String,
    pub role: TextureRole,
    pub color_space: ColorSpace,
}

/// A [`TextureRequest`] as plain values.
pub struct TextureRequestView {
    pub path: Seq<char>,
    pub role: TextureRole,
    pub color_space: ColorSpace,
}

impl View for TextureRequest {
    type V = TextureRequestView;

    open spec fn view(&self) -> TextureRequestView {
        TextureRequestView {
            path: self.path@,
            role: self.role,
            color_space: self.color_space,
        }
    }
}

/// The textures of a material, in the order in which they are asked for.
#[derive(Debug, Clone, Copy, PartialEq, Eq, Structural)]
pub enum Slot {
    TintMask,
    BaseColor,
    Normal,
    Layer2Color,
    Layer2Normal,
    BlendModulation,
    Color2,
    Normal2,
    Height2,
    Height1,
    Ao,
    Metalness,
    SelfIllum,
}

/// How many slots there are.
pub const SLOT_COUNT: usize = 13;

/// The slot at a place in the order.
pub open spec fn slot_of(i: int) -> Slot {
    if i == 0 {
        Slot::TintMask
    } else if i == 1 {
        Slot::BaseColor
    } else if i == 2 {
        Slot::Normal
    } else if i == 3 {
        Slot::Layer2Color
    } else if i == 4 {
        Slot::Layer2Normal
    } else if i == 5 {
        Slot::BlendModulation
    } else if i == 6 {
        Slot::Color2
    } else if i == 7 {
        Slot::Normal2
    } else if i == 8 {
        Slot::Height2
    } else if i == 9 {
        Slot::Height1
    } else if i == 10 {
        Slot::Ao
    } else if i == 11 {
        Slot::Metalness
    } else {
        Slot::SelfIllum
    }
}

/// The slot at a place in the order.
pub fn slot_at(i: usize) -> (r: Slot)
    requires
        i < SLOT_COUNT,
    ensures
        r == slot_of(i as int),
{
    match i {
        0 => Slot::TintMask,
        1 => Slot::BaseColor,
        2 => Slot::Normal,
        3 => Slot::Layer2Color,
        4 => Slot::Layer2Normal,
        5 => Slot::BlendModulation,
        6 => Slot::Color2,
        7 => Slot::Normal2,
        8 => Slot::Height2,
        9 => Slot::Height1,
        10 => Slot::Ao,
        11 => Slot::Metalness,
        _ => Slot::SelfIllum,
    }
}

/// What is known of an optional path.
pub open spec fn asked(path: Option<Seq<char>>, role: TextureRole, color_space: ColorSpace) -> Option<
    TextureRequestView,
> {
    match path {
        Some(path) => Some(TextureRequestView { path, role, color_space }),
        None => None,
    }
}

/// The colour space of the base colour: a material that doubles what lies under it reads its colour
/// as it is.
pub open spec fn base_space(r: ResolvedView) -> ColorSpace {
    if r.mod2x {
        ColorSpace::Linear
    } else {
        ColorSpace::Srgb
    }
}

/// The texture that a material asks for in a slot. The mask of the tint is asked for only where the
/// tint goes beside the base colour, the base colour only where it is not plain black, and of the
/// second layer of an environment each texture only where the one before it is there: `earlier`
/// says whether.
pub open spec fn wanted(r: ResolvedView, slot: Slot, earlier: bool) -> Option<TextureRequestView> {
    match slot {
        Slot::TintMask => if r.tint_mask {
            asked(r.tint_mask_texture, TextureRole::Mask, ColorSpace::Linear)
        } else {
            None
        },
        Slot::BaseColor => if r.constant_black {
            None
        } else {
            asked(r.base_color_texture, TextureRole::Color, base_space(r))
        },
        Slot::Normal => asked(r.normal_texture, TextureRole::Normal, ColorSpace::Linear),
        Slot::Layer2Color => match r.layers {
            Some(l) => asked(l.layer2_color, TextureRole::Color, ColorSpace::Srgb),
            None => None,
        },
        Slot::Layer2Normal => match r.layers {
            Some(l) => asked(l.layer2_normal, TextureRole::Normal, ColorSpace::Linear),
            None => None,
        },
        Slot::BlendModulation => match r.layers {
            Some(l) => asked(l.blend_modulation, TextureRole::Mask, ColorSpace::Linear),
            None => None,
        },
        Slot::Color2 => match r.env_layer2 {
            Some(e) => asked(e.color2, TextureRole::Color, ColorSpace::Srgb),
            None => None,
        },
        Slot::Normal2 => match r.env_layer2 {
            Some(e) => if earlier {
                asked(e.normal2, TextureRole::Normal, ColorSpace::Linear)
            } else {
                None
            },
            None => None,
        },
        Slot::Height2 => match r.env_layer2 {
            Some(e) => if earlier {
                asked(e.height.height_texture, TextureRole::Mask, ColorSpace::Linear)
            } else {
                None
            },
            None => None,
        },
        Slot::Height1 => match r.env1 {
            Some(e) => asked(e.height_texture, TextureRole::Mask, ColorSpace::Linear),
            None => None,
        },
        Slot::Ao => asked(r.ao_texture, TextureRole::Mask, ColorSpace::Linear),
        Slot::Metalness => match r.metalness {
            MetalnessView::Texture(path) => asked(
                Some(path),
                TextureRole::Mask,
                ColorSpace::Linear,
            ),
            MetalnessView::Scalar(_) => None,
        },
        Slot::SelfIllum => match r.self_illum {
            Some(s) => asked(Some(s.texture), TextureRole::Color, ColorSpace::Srgb),
            None => None,
        },
    }
}

/// Asks for a path, where there is one.
fn ask(path: &Option<String>, role: TextureRole, color_space: ColorSpace) -> (r: Option<
    TextureRequest,
>)
    ensures
        crate::material::opt_view(r) == asked(
            crate::text::opt_text(*path),
            role,
            color_space,
        ),
{
    match path {
        Some(path) => Some(TextureRequest { path: path.clone(), role, color_space }),
        None => None,
    }
}

/// The texture that a material asks for in a slot, if any. `earlier` says whether the texture of
/// the slot before is there.
pub fn texture_request(resolved: &ResolvedMaterial, slot: Slot, earlier: bool) -> (r: Option<
    TextureRequest,
>)
    ensures
        crate::material::opt_view(r) == wanted(resolved@, slot, earlier),
{
    match slot {
        Slot::TintMask => if resolved.tint_mask {
            ask(&resolved.tint_mask_texture, TextureRole::Mask, ColorSpace::Linear)
        } else {
            None
        },
        Slot::BaseColor => if resolved.constant_black {
            None
        } else {
            let space: ColorSpace = if resolved.mod2x {
                ColorSpace::Linear
            } else {
                ColorSpace::Srgb
            };
            ask(&resolved.base_color_texture, TextureRole::Color, space)
        },
        Slot::Normal => ask(&resolved.normal_texture, TextureRole::Normal, ColorSpace::Linear),
        Slot::Layer2Color => match &resolved.layers {
            Some(l) => ask(&l.layer2_color, TextureRole::Color, ColorSpace::Srgb),
            None => None,
        },
        Slot::Layer2Normal => match &resolved.layers {
            Some(l) => ask(&l.layer2_normal, TextureRole::Normal, ColorSpace::Linear),
            None => None,
        },
        Slot::BlendModulation => match &resolved.layers {
            Some(l) => ask(&l.blend_modulation, TextureRole::Mask, ColorSpace::Linear),
            None => None,
        },
        Slot::Color2 => match &resolved.env_layer2 {
            Some(e) => ask(&e.color2, TextureRole::Color, ColorSpace::Srgb),
            None => None,
        },
        Slot::Normal2 => match &resolved.env_layer2 {
            Some(e) => if earlier {
                ask(&e.normal2, TextureRole::Normal, ColorSpace::Linear)
            } else {
                None
            },
            None => None,
        },
        Slot::Height2 => match &resolved.env_layer2 {
            Some(e) => if earlier {
                ask(&e.height.height_texture, TextureRole::Mask, ColorSpace::Linear)
            } else {
                None
            },
            None => None,
        },
        Slot::Height1 => match &resolved.env1 {
            Some(e) => ask(&e.height_texture, TextureRole::Mask, ColorSpace::Linear),
            None => None,
        },
        Slot::Ao => ask(&resolved.ao_texture, TextureRole::Mask, ColorSpace::Linear),
        Slot::Metalness => match &resolved.metalness {
            MetalnessSource::Texture(path) => Some(
                TextureRequest {
                    path: path.clone(),
                    role: TextureRole::Mask,
                    color_space: ColorSpace::Linear,
                },
            ),
            MetalnessSource::Scalar(_) => None,
        },
        Slot::SelfIllum => match &resolved.self_illum {
            Some(s) => Some(
                TextureRequest {
                    path: s.texture.clone(),
                    role: TextureRole::Color,
                    color_space: ColorSpace::Srgb,
                },
            ),
            None => None,
        },
    }
}

/// The texture that a material asks for next, where `loads` holds what the slots before got.
pub fn next_texture(resolved: &ResolvedMaterial, loads: &Vec<Option<Loaded>>) -> (r: Option<
    TextureRequest,
>)
    requires
        loads@.len() < SLOT_COUNT,
    ensures
        crate::material::opt_view(r) == wanted(
            resolved@,
            slot_of(loads@.len() as int),
            loads@.len() > 0 && loads@.last() is Some,
        ),
{
    let n: usize = loads.len();
    let earlier: bool = n > 0 && loads[n - 1].is_some();
    texture_request(resolved, slot_at(n), earlier)
}

/// Whether this is what a material can be written with: a slot got something only where the material
/// asks for it, and a tint goes beside the base colour exactly where the material has a mask for it.
pub open spec fn suits(r: ResolvedView, inputs: MaterialInputs, loads: Seq<Option<Loaded>>) -> bool {
    &&& loads.len() == SLOT_COUNT
    &&& forall|i: int|
        0 <= i < SLOT_COUNT && wanted(r, slot_of(i), i > 0 && loads[i - 1] is Some) is None
            ==> #[trigger] loads[i] is None
    &&& inputs.tint is Some == r.tint_mask
}

/// Whether this is what a material can be written with.
pub fn is_suited(resolved: &ResolvedMaterial, inputs: &MaterialInputs, loads: &Vec<Option<Loaded>>) -> (r:
    bool)
    ensures
        r == suits(resolved@, *inputs, loads@),
{
    if loads.len() != SLOT_COUNT || inputs.tint.is_some() != resolved.tint_mask {
        return false;
    }
    let mut i: usize = 0;
    while i < SLOT_COUNT
        invariant
            i <= SLOT_COUNT,
            loads@.len() == SLOT_COUNT,
            forall|k: int|
                0 <= k < i && wanted(
                    resolved@,
                    slot_of(k),
                    k > 0 && loads@[k - 1] is Some,
                ) is None ==> #[trigger] loads@[k] is None,
        decreases SLOT_COUNT - i,
    {
        let earlier: bool = i > 0 && loads[i - 1].is_some();
        if loads[i].is_some() && texture_request(resolved, slot_at(i), earlier).is_none() {
            assert(loads@[i as int] is Some);
            return false;
        }
        i += 1;
    }
    true
}

/// Bytes, as documents.
pub open spec fn bytes_json(v: Seq<u8>) -> Seq<JsonView> {
    Seq::new(v.len(), |i: int| JsonView::UInt(v[i] as u64))
}

/// Members with a texture more: its index, or the pixel that stands for all of it with what a
/// sample of it has to go through, so that a constant is read as a sample is.
pub open spec fn with_loaded(
    m: Seq<(Seq<char>, JsonView)>,
    key: Seq<char>,
    loaded: Loaded,
    color_space: Option<ColorSpace>,
) -> Seq<(Seq<char>, JsonView)> {
    match loaded {
        Loaded::Texture(index) => m.push((key + "Texture"@, JsonView::UInt(index as u64))),
        Loaded::Constant { raw, codec } => {
            let m = m.push((key + "Constant"@, JsonView::Array(bytes_json(raw@)))).push(
                (
                    key + "ConstantCodec"@,
                    JsonView::Str(crate::native_texture::codec_name(codec)),
                ),
            );
            match color_space {
                Some(c) => m.push(
                    (
                        key + "ConstantColorSpace"@,
                        JsonView::Str(crate::native_texture::color_space_name(c)),
                    ),
                ),
                None => m,
            }
        },
    }
}

/// Members with a texture more, where there is one.
pub open spec fn also_loaded(
    m: Seq<(Seq<char>, JsonView)>,
    key: Seq<char>,
    loaded: Option<Loaded>,
    color_space: Option<ColorSpace>,
) -> Seq<(Seq<char>, JsonView)> {
    match loaded {
        Some(l) => with_loaded(m, key, l, color_space),
        None => m,
    }
}

/// Four bytes, as a list.
fn write_bytes(raw: &[u8; 4]) -> (r: Vec<Json>)
    ensures
        crate::json::json_views(r@) == bytes_json(raw@),
{
    let mut out: Vec<Json> = Vec::new();
    let mut i: usize = 0;
    while i < 4
        invariant
            i <= 4,
            crate::json::json_views(out@) =~= bytes_json(raw@).take(i as int),
        decreases 4 - i,
    {
        let item: Json = Json::UInt(raw[i] as u64);
        assert(bytes_json(raw@).take(i + 1) =~= bytes_json(raw@).take(i as int).push(item@));
        add_item(&mut out, item);
        i += 1;
    }
    assert(bytes_json(raw@).take(4) =~= bytes_json(raw@));
    out
}

/// Puts a texture in.
pub fn insert_loaded(m: &mut Members, key: &str, loaded: Loaded, color_space: Option<ColorSpace>)
    ensures
        final(m)@ == with_loaded(old(m)@, key@, loaded, color_space),
{
    match loaded {
        Loaded::Texture(index) => {
            m.put_uint(concat(key, "Texture").as_str(), index as u64);
        },
        Loaded::Constant { raw, codec } => {
            m.put_array(concat(key, "Constant").as_str(), write_bytes(&raw));
            m.put_text(concat(key, "ConstantCodec").as_str(), codec.as_str());
            match color_space {
                Some(c) => {
                    m.put_text(concat(key, "ConstantColorSpace").as_str(), c.as_str());
                },
                None => {},
            }
        },
    }
}

/// Puts a texture in, where there is one.
fn insert_if(m: &mut Members, key: &str, loaded: Option<Loaded>, color_space: Option<ColorSpace>)
    ensures
        final(m)@ == also_loaded(old(m)@, key@, loaded, color_space),
{
    match loaded {
        Some(l) => {
            insert_loaded(m, key, l, color_space);
        },
        None => {},
    }
}

/// Three singles, as a document.
pub open spec fn vec3_json(v: Vector3) -> JsonView {
    JsonView::Array(crate::json::floats(seq![v.x, v.y, v.z]))
}

/// Two singles, as a document.
pub open spec fn vec2_json(v: Vector2) -> JsonView {
    JsonView::Array(crate::json::floats(seq![v.x, v.y]))
}

/// Puts three singles in.
fn put_vec3(m: &mut Members, key: &str, v: &Vector3)
    ensures
        final(m)@ == old(m)@.push((key@, vec3_json(*v))),
{
    let list: [u32; 3] = [v.x, v.y, v.z];
    assert(list@ =~= seq![v.x, v.y, v.z]);
    m.put_singles(key, list.as_slice());
}

/// Puts two singles in.
fn put_vec2(m: &mut Members, key: &str, v: &Vector2)
    ensures
        final(m)@ == old(m)@.push((key@, vec2_json(*v))),
{
    let list: [u32; 2] = [v.x, v.y];
    assert(list@ =~= seq![v.x, v.y]);
    m.put_singles(key, list.as_slice());
}

/// How the colour of a layer is corrected: two matrices, column by column, as the bits of singles.
#[derive(Debug, Clone, Copy)]
pub struct ColorMatrices {
    pub color_adjust: [u32; 16],
    /// The same with a white tint.
    pub adjust: [u32; 16],
}

/// What of a material is worked out in floating point: as the bits of singles.
#[derive(Debug, Clone, Copy)]
pub struct MaterialInputs {
    pub base_color: [u32; 4],
    /// The tint that goes beside the base colour.
    pub tint: Option<[u32; 3]>,
    /// The direction of the facing blend, of unit length, and its bounds.
    pub facing_direction: [u32; 3],
    pub facing_min_max: [u32; 2],
    /// The tint of the light that the material gives off, made linear.
    pub self_illum_tint: [u32; 3],
    /// How the colours of the two layers are corrected.
    pub matrices1: ColorMatrices,
    pub matrices2: ColorMatrices,
}

/// The textures that a material got: by slot, in their order.
pub open spec fn got(loads: Seq<Option<Loaded>>, i: int) -> Option<Loaded> {
    if 0 <= i < loads.len() {
        loads[i]
    } else {
        None
    }
}

/// The second layer of a layered material.
pub open spec fn layers_json(loads: Seq<Option<Loaded>>) -> JsonView {
    let m = also_loaded(crate::json::empty(), "layer2Color"@, got(loads, 3), Some(ColorSpace::Srgb));
    let m = also_loaded(m, "layer2Normal"@, got(loads, 4), None);
    let m = also_loaded(m, "blendModulation"@, got(loads, 5), None);
    JsonView::Object(m.push(("formula"@, JsonView::Str(LAYER_BLEND_FORMULA@))))
}

/// What a material asks for that the blend does not do.
pub open spec fn flags_json(v: Seq<(Seq<char>, Seq<char>)>) -> Seq<JsonView> {
    Seq::new(
        v.len(),
        |i: int|
            JsonView::Object(
                crate::json::empty().push(("flag"@, JsonView::Str(v[i].0))).push(
                    ("why"@, JsonView::Str(v[i].1)),
                ),
            ),
    )
}

/// How the second layer of an environment is mixed in.
pub const ENV_LAYER_FORMULA: &'static str =
    "weight2 from csgo_environment.frag.slang:348-377 GetBlendWeights (legacy path only -- see this material's own 'unsupported' key if it needs F_USE_NEW_BLENDING instead), vertex paint _BLEND = vColorBlendValues.x + height1/height2.r bands; colour/roughness/AO/metalness/normal each mix(layer1, layer2, weight2), i.e. the reference's own CombineColor/CombineRoughness/CombineOcclusion/CombineNormal at their default overlay=0/replace=1/combine=0 (this material's own values, if it overrides any of them, are not read)";

/// The first part of the second layer of an environment: its textures and its heights.
pub open spec fn env2_heights(
    e: EnvLayer2View,
    color2: Loaded,
    normal2: Loaded,
    height2: Loaded,
) -> Seq<(Seq<char>, JsonView)> {
    let m = with_loaded(crate::json::empty(), "color2"@, color2, Some(ColorSpace::Srgb));
    let m = with_loaded(m, "normal2"@, normal2, None);
    let m = with_loaded(m, "height2"@, height2, None);
    m.push(("roughnessContrast2"@, JsonView::Single(e.height.roughness_contrast))).push(
        ("roughnessBrightness2"@, JsonView::Single(e.height.roughness_brightness)),
    ).push(("normalContrast2"@, JsonView::Single(e.height.normal_contrast))).push(
        ("aoLevels2"@, vec3_json(e.height.ao_levels)),
    ).push(("metalnessEnabled2"@, JsonView::Bool(e.height.metalness_enabled))).push(
        ("heightScale1"@, JsonView::Single(e.height_scale1)),
    ).push(("heightZeroPoint1"@, JsonView::Single(e.height_zero_point1))).push(
        ("heightScale2"@, JsonView::Single(e.height_scale2)),
    ).push(("heightZeroPoint2"@, JsonView::Single(e.height_zero_point2))).push(
        ("blendSoftness2"@, JsonView::Single(e.blend_softness2)),
    )
}

/// The second layer of an environment.
pub open spec fn env2_json(
    e: EnvLayer2View,
    inputs: MaterialInputs,
    color2: Loaded,
    normal2: Loaded,
    height2: Loaded,
) -> JsonView {
    let m = env2_heights(e, color2, normal2, height2);
    let m = if e.unsupported.len() > 0 {
        m.push(("unsupported"@, JsonView::Array(flags_json(e.unsupported))))
    } else {
        m
    };
    let m = m.push(("uvScale2"@, vec2_json(e.height.uv_scale))).push(
        ("uvOffset2"@, vec2_json(e.height.uv_offset)),
    ).push(("uvRotation2"@, JsonView::Single(e.height.uv_rotation)));
    let m = if e.facing2 is Some {
        m.push(
            (
                "facingDirection2"@,
                JsonView::Array(crate::json::floats(inputs.facing_direction@)),
            ),
        ).push(
            ("facingMinMax2"@, JsonView::Array(crate::json::floats(inputs.facing_min_max@))),
        )
    } else {
        m
    };
    JsonView::Object(
        m.push(
            (
                "colorAdjust2"@,
                JsonView::Array(crate::json::floats(inputs.matrices2.color_adjust@)),
            ),
        ).push(
            ("adjust2"@, JsonView::Array(crate::json::floats(inputs.matrices2.adjust@))),
        ).push(("colorCorrectionMode2"@, JsonView::Int(e.height.color_correction_mode))).push(
            ("tintMaskContrast2"@, JsonView::Single(e.height.tint_mask_contrast)),
        ).push(("tintMaskBrightness2"@, JsonView::Single(e.height.tint_mask_brightness))).push(
            ("formula"@, JsonView::Str(ENV_LAYER_FORMULA@)),
        ),
    )
}

/// The first layer of an environment.
pub open spec fn env1_json(e: EnvHeightView, inputs: MaterialInputs, height1: Loaded) -> JsonView {
    let m = with_loaded(crate::json::empty(), "height1"@, height1, None);
    JsonView::Object(
        m.push(("roughnessContrast1"@, JsonView::Single(e.roughness_contrast))).push(
            ("roughnessBrightness1"@, JsonView::Single(e.roughness_brightness)),
        ).push(("normalContrast1"@, JsonView::Single(e.normal_contrast))).push(
            ("aoLevels1"@, vec3_json(e.ao_levels)),
        ).push(("metalnessEnabled1"@, JsonView::Bool(e.metalness_enabled))).push(
            ("uvScale1"@, vec2_json(e.uv_scale)),
        ).push(("uvOffset1"@, vec2_json(e.uv_offset))).push(
            (
                "colorAdjust1"@,
                JsonView::Array(crate::json::floats(inputs.matrices1.color_adjust@)),
            ),
        ).push(
            ("adjust1"@, JsonView::Array(crate::json::floats(inputs.matrices1.adjust@))),
        ).push(("colorCorrectionMode1"@, JsonView::Int(e.color_correction_mode))).push(
            ("tintMaskContrast1"@, JsonView::Single(e.tint_mask_contrast)),
        ).push(("tintMaskBrightness1"@, JsonView::Single(e.tint_mask_brightness))),
    )
}

/// The colour part of what is written beside a material.
pub open spec fn extras_colors(
    r: ResolvedView,
    inputs: MaterialInputs,
    loads: Seq<Option<Loaded>>,
) -> Seq<(Seq<char>, JsonView)> {
    let m = crate::json::empty().push(
        ("baseColorAlphaMeaning"@, JsonView::Str(r.base_color_alpha_meaning)),
    );
    let m = if r.mod2x {
        m.push(("blendMode"@, JsonView::Str("mod2x"@)))
    } else {
        m
    };
    let m = match inputs.tint {
        Some(t) => also_loaded(
            m.push(("tint"@, JsonView::Array(crate::json::floats(t@)))),
            "tintMask"@,
            got(loads, 0),
            None,
        ),
        None => m,
    };
    let m = also_loaded(m, "baseColor"@, got(loads, 1), Some(base_space(r)));
    also_loaded(m, "normal"@, got(loads, 2), None)
}

/// The layers of a material.
pub open spec fn with_layers(
    m: Seq<(Seq<char>, JsonView)>,
    r: ResolvedView,
    inputs: MaterialInputs,
    loads: Seq<Option<Loaded>>,
) -> Seq<(Seq<char>, JsonView)> {
    let m = if r.layers is Some {
        m.push(("layers"@, layers_json(loads)))
    } else {
        m
    };
    let m = match (r.env_layer2, got(loads, 6), got(loads, 7), got(loads, 8)) {
        (Some(e), Some(color2), Some(normal2), Some(height2)) => m.push(
            ("envLayer2"@, env2_json(e, inputs, color2, normal2, height2)),
        ),
        _ => m,
    };
    match (r.env1, got(loads, 9)) {
        (Some(e), Some(height1)) => m.push(("env1"@, env1_json(e, inputs, height1))),
        _ => m,
    }
}

/// The surface of a material.
pub open spec fn with_surface(
    m: Seq<(Seq<char>, JsonView)>,
    r: ResolvedView,
    inputs: MaterialInputs,
    loads: Seq<Option<Loaded>>,
) -> Seq<(Seq<char>, JsonView)> {
    let m = match got(loads, 10) {
        Some(l) => with_loaded(m, "ao"@, l, None).push(("aoChannel"@, JsonView::Str("r"@))),
        None => m,
    };
    let m = match r.metalness {
        MetalnessView::Texture(_) => match got(loads, 11) {
            Some(l) => with_loaded(m, "metalness"@, l, None).push(
                ("metalnessChannel"@, JsonView::Str("g"@)),
            ),
            None => m,
        },
        MetalnessView::Scalar(v) => m.push(("metalnessValue"@, JsonView::Single(v))),
    };
    let m = match (r.self_illum, got(loads, 12)) {
        (Some(s), Some(l)) => with_loaded(m, "selfIllum"@, l, Some(ColorSpace::Srgb)).push(
            ("selfIllumScale"@, JsonView::Single(s.scale)),
        ).push(("selfIllumBrightness"@, JsonView::Single(s.brightness))).push(
            (
                "selfIllumTint"@,
                JsonView::Array(crate::json::floats(inputs.self_illum_tint@)),
            ),
        ).push(("selfIllumAlbedoFactor"@, JsonView::Single(s.albedo_factor))),
        _ => m,
    };
    m.push(
        ("noSpecularAtFullRoughness"@, JsonView::Bool(r.no_specular_at_full_roughness)),
    ).push(("fogEnabled"@, JsonView::Bool(r.fog_enabled)))
}

/// What is written beside a material.
pub open spec fn extras_json(
    r: ResolvedView,
    inputs: MaterialInputs,
    loads: Seq<Option<Loaded>>,
) -> JsonView {
    JsonView::Object(
        with_surface(
            with_layers(extras_colors(r, inputs, loads), r, inputs, loads),
            r,
            inputs,
            loads,
        ),
    )
}

/// The name of an alpha mode.
pub open spec fn alpha_name(mode: AlphaMode) -> Seq<char> {
    match mode {
        AlphaMode::Opaque => "OPAQUE"@,
        AlphaMode::Mask => "MASK"@,
        AlphaMode::Blend => "BLEND"@,
    }
}

/// The base colour: that of a material that is plain black has only its opacity.
pub open spec fn base_factor(r: ResolvedView, inputs: MaterialInputs) -> Seq<u32> {
    if r.constant_black {
        seq![F32_ZERO, F32_ZERO, F32_ZERO, inputs.base_color@[3]]
    } else {
        inputs.base_color@
    }
}

/// A material, as a document.
pub open spec fn material_json(
    path: Seq<char>,
    r: ResolvedView,
    inputs: MaterialInputs,
    loads: Seq<Option<Loaded>>,
) -> JsonView {
    let pbr = crate::json::empty().push(
        ("baseColorFactor"@, JsonView::Array(crate::json::floats(base_factor(r, inputs)))),
    ).push(("metallicFactor"@, JsonView::Single(F32_ZERO))).push(
        ("roughnessFactor"@, JsonView::Single(F32_ONE)),
    );
    let m = crate::json::empty().push(("name"@, JsonView::Str(path))).push(
        ("pbrMetallicRoughness"@, JsonView::Object(pbr)),
    ).push(("alphaMode"@, JsonView::Str(alpha_name(r.alpha_mode))));
    let m = match r.alpha_cutoff {
        Some(c) => m.push(("alphaCutoff"@, JsonView::Single(c))),
        None => m,
    };
    let m = if r.double_sided {
        m.push(("doubleSided"@, JsonView::Bool(true)))
    } else {
        m
    };
    let m = if r.unlit {
        m.push(
            (
                "extensions"@,
                JsonView::Object(
                    crate::json::empty().push(
                        ("KHR_materials_unlit"@, JsonView::Object(crate::json::empty())),
                    ),
                ),
            ),
        )
    } else {
        m
    };
    JsonView::Object(m.push(("extras"@, extras_json(r, inputs, loads))))
}

/// The second layer of a layered material.
fn write_layers(loads: &Vec<Option<Loaded>>) -> (r: Json)
    requires
        loads@.len() == SLOT_COUNT,
    ensures
        r@ == layers_json(loads@),
{
    let mut m: Members = Members::new();
    insert_if(&mut m, "layer2Color", loads[3], Some(ColorSpace::Srgb));
    insert_if(&mut m, "layer2Normal", loads[4], None);
    insert_if(&mut m, "blendModulation", loads[5], None);
    m.put_text("formula", LAYER_BLEND_FORMULA);
    m.object()
}

/// What a material asks for that the blend does not do.
fn write_flags(v: &Vec<(&'static str, &'static str)>) -> (r: Vec<Json>)
    ensures
        crate::json::json_views(r@) == flags_json(crate::material::text_pairs(v@)),
{
    let ghost all = flags_json(crate::material::text_pairs(v@));
    let mut out: Vec<Json> = Vec::new();
    let mut i: usize = 0;
    while i < v.len()
        invariant
            i <= v@.len(),
            all == flags_json(crate::material::text_pairs(v@)),
            crate::json::json_views(out@) =~= all.take(i as int),
        decreases v@.len() - i,
    {
        let mut m: Members = Members::new();
        m.put_text("flag", v[i].0);
        m.put_text("why", v[i].1);
        let item: Json = m.object();
        assert(all.take(i + 1) =~= all.take(i as int).push(item@));
        add_item(&mut out, item);
        i += 1;
    }
    assert(all.take(i as int) =~= all);
    out
}

/// The first part of the second layer of an environment.
fn write_env2_heights(e: &EnvLayer2, color2: Loaded, normal2: Loaded, height2: Loaded) -> (r: Members)
    ensures
        r@ == env2_heights(e@, color2, normal2, height2),
{
    let mut m: Members = Members::new();
    insert_loaded(&mut m, "color2", color2, Some(ColorSpace::Srgb));
    insert_loaded(&mut m, "normal2", normal2, None);
    insert_loaded(&mut m, "height2", height2, None);
    m.put_single("roughnessContrast2", e.height.roughness_contrast);
    m.put_single("roughnessBrightness2", e.height.roughness_brightness);
    m.put_single("normalContrast2", e.height.normal_contrast);
    put_vec3(&mut m, "aoLevels2", &e.height.ao_levels);
    m.put_bool("metalnessEnabled2", e.height.metalness_enabled);
    m.put_single("heightScale1", e.height_scale1);
    m.put_single("heightZeroPoint1", e.height_zero_point1);
    m.put_single("heightScale2", e.height_scale2);
    m.put_single("heightZeroPoint2", e.height_zero_point2);
    m.put_single("blendSoftness2", e.blend_softness2);
    m
}

/// The second layer of an environment.
fn write_env2(
    e: &EnvLayer2,
    inputs: &MaterialInputs,
    color2: Loaded,
    normal2: Loaded,
    height2: Loaded,
) -> (r: Json)
    ensures
        r@ == env2_json(e@, *inputs, color2, normal2, height2),
{
    let mut m: Members = write_env2_heights(e, color2, normal2, height2);
    if e.unsupported.len() > 0 {
        m.put_array("unsupported", write_flags(&e.unsupported));
    }
    put_vec2(&mut m, "uvScale2", &e.height.uv_scale);
    put_vec2(&mut m, "uvOffset2", &e.height.uv_offset);
    m.put_single("uvRotation2", e.height.uv_rotation);
    if e.facing2.is_some() {
        m.put_singles("facingDirection2", inputs.facing_direction.as_slice());
        m.put_singles("facingMinMax2", inputs.facing_min_max.as_slice());
    }
    m.put_singles("colorAdjust2", inputs.matrices2.color_adjust.as_slice());
    m.put_singles("adjust2", inputs.matrices2.adjust.as_slice());
    m.put_int("colorCorrectionMode2", e.height.color_correction_mode);
    m.put_single("tintMaskContrast2", e.height.tint_mask_contrast);
    m.put_single("tintMaskBrightness2", e.height.tint_mask_brightness);
    m.put_text("formula", ENV_LAYER_FORMULA);
    m.object()
}

/// The first layer of an environment.
fn write_env1(e: &EnvHeightParams, inputs: &MaterialInputs, height1: Loaded) -> (r: Json)
    ensures
        r@ == env1_json(e@, *inputs, height1),
{
    let mut m: Members = Members::new();
    insert_loaded(&mut m, "height1", height1, None);
    m.put_single("roughnessContrast1", e.roughness_contrast);
    m.put_single("roughnessBrightness1", e.roughness_brightness);
    m.put_single("normalContrast1", e.normal_contrast);
    put_vec3(&mut m, "aoLevels1", &e.ao_levels);
    m.put_bool("metalnessEnabled1", e.metalness_enabled);
    put_vec2(&mut m, "uvScale1", &e.uv_scale);
    put_vec2(&mut m, "uvOffset1", &e.uv_offset);
    m.put_singles("colorAdjust1", inputs.matrices1.color_adjust.as_slice());
    m.put_singles("adjust1", inputs.matrices1.adjust.as_slice());
    m.put_int("colorCorrectionMode1", e.color_correction_mode);
    m.put_single("tintMaskContrast1", e.tint_mask_contrast);
    m.put_single("tintMaskBrightness1", e.tint_mask_brightness);
    m.object()
}

/// The colour part of what is written beside a material.
fn write_colors(resolved: &ResolvedMaterial, inputs: &MaterialInputs, loads: &Vec<Option<Loaded>>) -> (r:
    Members)
    requires
        loads@.len() == SLOT_COUNT,
    ensures
        r@ == extras_colors(resolved@, *inputs, loads@),
{
    let mut m: Members = Members::new();
    m.put_text("baseColorAlphaMeaning", resolved.base_color_alpha_meaning);
    if resolved.mod2x {
        m.put_text("blendMode", "mod2x");
    }
    match inputs.tint {
        Some(t) => {
            m.put_singles("tint", t.as_slice());
            insert_if(&mut m, "tintMask", loads[0], None);
        },
        None => {},
    }
    let space: ColorSpace = if resolved.mod2x {
        ColorSpace::Linear
    } else {
        ColorSpace::Srgb
    };
    insert_if(&mut m, "baseColor", loads[1], Some(space));
    insert_if(&mut m, "normal", loads[2], None);
    m
}

/// Puts the layers of a material in.
fn put_layers(
    m: &mut Members,
    resolved: &ResolvedMaterial,
    inputs: &MaterialInputs,
    loads: &Vec<Option<Loaded>>,
)
    requires
        loads@.len() == SLOT_COUNT,
    ensures
        final(m)@ == with_layers(old(m)@, resolved@, *inputs, loads@),
{
    if resolved.layers.is_some() {
        m.put("layers", write_layers(loads));
    }
    match &resolved.env_layer2 {
        Some(e) => match (loads[6], loads[7], loads[8]) {
            (Some(color2), Some(normal2), Some(height2)) => {
                m.put("envLayer2", write_env2(e, inputs, color2, normal2, height2));
            },
            _ => {},
        },
        None => {},
    }
    match &resolved.env1 {
        Some(e) => match loads[9] {
            Some(height1) => {
                m.put("env1", write_env1(e, inputs, height1));
            },
            None => {},
        },
        None => {},
    }
}

/// Puts the surface of a material in.
fn put_surface(
    m: &mut Members,
    resolved: &ResolvedMaterial,
    inputs: &MaterialInputs,
    loads: &Vec<Option<Loaded>>,
)
    requires
        loads@.len() == SLOT_COUNT,
    ensures
        final(m)@ == with_surface(old(m)@, resolved@, *inputs, loads@),
{
    match loads[10] {
        Some(l) => {
            insert_loaded(m, "ao", l, None);
            m.put_text("aoChannel", "r");
        },
        None => {},
    }
    match &resolved.metalness {
        MetalnessSource::Texture(_) => match loads[11] {
            Some(l) => {
                insert_loaded(m, "metalness", l, None);
                m.put_text("metalnessChannel", "g");
            },
            None => {},
        },
        MetalnessSource::Scalar(v) => {
            m.put_single("metalnessValue", *v);
        },
    }
    match &resolved.self_illum {
        Some(s) => match loads[12] {
            Some(l) => {
                insert_loaded(m, "selfIllum", l, Some(ColorSpace::Srgb));
                m.put_single("selfIllumScale", s.scale);
                m.put_single("selfIllumBrightness", s.brightness);
                m.put_singles("selfIllumTint", inputs.self_illum_tint.as_slice());
                m.put_single("selfIllumAlbedoFactor", s.albedo_factor);
            },
            None => {},
        },
        None => {},
    }
    m.put_bool("noSpecularAtFullRoughness", resolved.no_specular_at_full_roughness);
    m.put_bool("fogEnabled", resolved.fog_enabled);
}

/// What is written beside a material: `loads` holds what each slot got.
pub fn write_extras(
    resolved: &ResolvedMaterial,
    inputs: &MaterialInputs,
    loads: &Vec<Option<Loaded>>,
) -> (r: Json)
    requires
        loads@.len() == SLOT_COUNT,
    ensures
        r@ == extras_json(resolved@, *inputs, loads@),
{
    let mut m: Members = write_colors(resolved, inputs, loads);
    put_layers(&mut m, resolved, inputs, loads);
    put_surface(&mut m, resolved, inputs, loads);
    m.object()
}

/// A material, as a document.
pub fn write_material(
    path: &str,
    resolved: &ResolvedMaterial,
    inputs: &MaterialInputs,
    loads: &Vec<Option<Loaded>>,
) -> (r: Json)
    requires
        loads@.len() == SLOT_COUNT,
    ensures
        r@ == material_json(path@, resolved@, *inputs, loads@),
{
    let mut pbr: Members = Members::new();
    let black: [u32; 4] = [F32_ZERO, F32_ZERO, F32_ZERO, inputs.base_color[3]];
    if resolved.constant_black {
        assert(black@ =~= base_factor(resolved@, *inputs));
        pbr.put_singles("baseColorFactor", black.as_slice());
    } else {
        pbr.put_singles("baseColorFactor", inputs.base_color.as_slice());
    }
    pbr.put_single("metallicFactor", F32_ZERO);
    pbr.put_single("roughnessFactor", F32_ONE);
    let mut m: Members = Members::new();
    m.put_text("name", path);
    m.put_object("pbrMetallicRoughness", pbr);
    let mode: &'static str = match resolved.alpha_mode {
        AlphaMode::Opaque => "OPAQUE",
        AlphaMode::Mask => "MASK",
        AlphaMode::Blend => "BLEND",
    };
    m.put_text("alphaMode", mode);
    match resolved.alpha_cutoff {
        Some(c) => {
            m.put_single("alphaCutoff", c);
        },
        None => {},
    }
    if resolved.double_sided {
        m.put_bool("doubleSided", true);
    }
    if resolved.unlit {
        let mut extensions: Members = Members::new();
        extensions.put_object("KHR_materials_unlit", Members::new());
        m.put_object("extensions", extensions);
    }
    m.put("extras", write_extras(resolved, inputs, loads));
    m.object()
}

/// A second layer of an environment of which not all three textures are there counts for nothing:
/// the material is written as though it had none.
pub proof fn half_a_second_layer_counts_for_nothing(
    r: ResolvedView,
    inputs: MaterialInputs,
    loads: Seq<Option<Loaded>>,
)
    requires
        got(loads, 6) is None || got(loads, 7) is None || got(loads, 8) is None,
    ensures
        extras_json(r, inputs, loads) == extras_json(
            (ResolvedView { env_layer2: None, ..r }),
            inputs,
            loads,
        ),
{
}

} // verus!
