//! What materials become: which textures are asked for and as what, and what a written material and its
//! extras say.

use crate::gltf_material::{ColorMatrices, MaterialInputs, Slot, TextureRequestView, TextureRole};
use crate::json::JsonView;
use crate::material::{AlphaMode, EnvHeightView, EnvLayer2View, MetalnessView, ResolvedView};
use crate::native_texture::{ColorSpace, Loaded};
use vstd::prelude::*;

verus! {

/// Whether a request is for a path, in a role and in a colour space; there is none without a path.
pub open spec fn asks(
    q: Option<TextureRequestView>,
    path: Option<Seq<char>>,
    role: TextureRole,
    space: ColorSpace,
) -> bool {
    match q {
        Some(t) => path == Some(t.path) && t.role == role && t.color_space == space,
        None => path is None,
    }
}

/// Which texture each slot asks for: those that hold colours in the colour space of colours, all
/// others as they are. A base colour that doubles what is behind it is no colour.
pub proof fn slots_ask_for_their_textures(r: ResolvedView, earlier: bool)
    ensures
        asks(
            crate::gltf_material::wanted(r, Slot::TintMask, earlier),
            if r.tint_mask {
                r.tint_mask_texture
            } else {
                None
            },
            TextureRole::Mask,
            ColorSpace::Linear,
        ),
        asks(
            crate::gltf_material::wanted(r, Slot::BaseColor, earlier),
            if r.constant_black {
                None
            } else {
                r.base_color_texture
            },
            TextureRole::Color,
            if r.mod2x {
                ColorSpace::Linear
            } else {
                ColorSpace::Srgb
            },
        ),
        asks(
            crate::gltf_material::wanted(r, Slot::Normal, earlier),
            r.normal_texture,
            TextureRole::Normal,
            ColorSpace::Linear,
        ),
        asks(
            crate::gltf_material::wanted(r, Slot::Ao, earlier),
            r.ao_texture,
            TextureRole::Mask,
            ColorSpace::Linear,
        ),
        asks(
            crate::gltf_material::wanted(r, Slot::Metalness, earlier),
            match r.metalness {
                MetalnessView::Texture(path) => Some(path),
                MetalnessView::Scalar(_) => None,
            },
            TextureRole::Mask,
            ColorSpace::Linear,
        ),
        r.self_illum matches Some(s) ==> asks(
            crate::gltf_material::wanted(r, Slot::SelfIllum, earlier),
            Some(s.texture),
            TextureRole::Color,
            ColorSpace::Srgb,
        ),
        r.self_illum is None ==> crate::gltf_material::wanted(r, Slot::SelfIllum, earlier) is None,
{
}

/// The same of the slots of a second layer. What goes with the colour of a second layer of an
/// environment is asked for only where that was there.
pub proof fn slots_of_layers_ask_for_their_textures(r: ResolvedView, earlier: bool)
    ensures
        match r.layers {
            Some(l) => {
                &&& asks(
                    crate::gltf_material::wanted(r, Slot::Layer2Color, earlier),
                    l.layer2_color,
                    TextureRole::Color,
                    ColorSpace::Srgb,
                )
                &&& asks(
                    crate::gltf_material::wanted(r, Slot::Layer2Normal, earlier),
                    l.layer2_normal,
                    TextureRole::Normal,
                    ColorSpace::Linear,
                )
                &&& asks(
                    crate::gltf_material::wanted(r, Slot::BlendModulation, earlier),
                    l.blend_modulation,
                    TextureRole::Mask,
                    ColorSpace::Linear,
                )
            },
            None => {
                &&& crate::gltf_material::wanted(r, Slot::Layer2Color, earlier) is None
                &&& crate::gltf_material::wanted(r, Slot::Layer2Normal, earlier) is None
                &&& crate::gltf_material::wanted(r, Slot::BlendModulation, earlier) is None
            },
        },
        match r.env_layer2 {
            Some(e) => {
                &&& asks(
                    crate::gltf_material::wanted(r, Slot::Color2, earlier),
                    e.color2,
                    TextureRole::Color,
                    ColorSpace::Srgb,
                )
                &&& asks(
                    crate::gltf_material::wanted(r, Slot::Normal2, true),
                    e.normal2,
                    TextureRole::Normal,
                    ColorSpace::Linear,
                )
                &&& asks(
                    crate::gltf_material::wanted(r, Slot::Height2, true),
                    e.height.height_texture,
                    TextureRole::Mask,
                    ColorSpace::Linear,
                )
            },
            None => {
                &&& crate::gltf_material::wanted(r, Slot::Color2, earlier) is None
                &&& crate::gltf_material::wanted(r, Slot::Normal2, earlier) is None
                &&& crate::gltf_material::wanted(r, Slot::Height2, earlier) is None
            },
        },
        crate::gltf_material::wanted(r, Slot::Normal2, false) is None,
        crate::gltf_material::wanted(r, Slot::Height2, false) is None,
        match r.env1 {
            Some(e) => asks(
                crate::gltf_material::wanted(r, Slot::Height1, earlier),
                e.height_texture,
                TextureRole::Mask,
                ColorSpace::Linear,
            ),
            None => crate::gltf_material::wanted(r, Slot::Height1, earlier) is None,
        },
{
}

/// Colours may have the full side; all other textures at most a lesser one.
pub proof fn only_colors_have_the_full_side(role: TextureRole, side: u32)
    ensures
        crate::gltf_material::side_limit(TextureRole::Color, side) == side,
        crate::gltf_material::side_limit(role, side) <= side,
        role != TextureRole::Color ==> crate::gltf_material::side_limit(role, side)
            <= crate::gltf_material::SECONDARY_MAX_SIDE,
        side <= crate::gltf_material::SECONDARY_MAX_SIDE ==> crate::gltf_material::side_limit(
            role,
            side,
        ) == side,
        role != TextureRole::Color && side > crate::gltf_material::SECONDARY_MAX_SIDE
            ==> crate::gltf_material::side_limit(role, side)
            == crate::gltf_material::SECONDARY_MAX_SIDE,
{
}

/// Whether members hold a value under a key.
pub open spec fn holds(m: Seq<(Seq<char>, JsonView)>, key: Seq<char>, value: JsonView) -> bool {
    m.contains((key, value))
}

/// Members hold each of them.
proof fn lemma_holds(m: Seq<(Seq<char>, JsonView)>, i: int)
    requires
        0 <= i < m.len(),
    ensures
        holds(m, m[i].0, m[i].1),
{
    assert(m[i] == (m[i].0, m[i].1));
}

/// What members hold they still hold when more come behind them.
proof fn lemma_still_holds(m: Seq<(Seq<char>, JsonView)>, n: Seq<(Seq<char>, JsonView)>)
    requires
        m.is_prefix_of(n),
    ensures
        forall|key: Seq<char>, value: JsonView| #[trigger]
            holds(m, key, value) ==> holds(n, key, value),
{
    assert forall|key: Seq<char>, value: JsonView| #[trigger] holds(m, key, value) implies holds(
        n,
        key,
        value,
    ) by {
        let i = m.index_of((key, value));
        assert(n[i] == m[i]);
    }
}

/// Whether members say what was loaded for a key: the number of a texture, or the four bytes of a
/// constant with how they are coded, and in which colour space where that is told.
pub open spec fn holds_loaded(
    m: Seq<(Seq<char>, JsonView)>,
    key: Seq<char>,
    loaded: Loaded,
    space: Option<ColorSpace>,
) -> bool {
    match loaded {
        Loaded::Texture(index) => holds(m, key + "Texture"@, JsonView::UInt(index as u64)),
        Loaded::Constant { raw, codec } => {
            &&& holds(
                m,
                key + "Constant"@,
                JsonView::Array(
                    seq![
                        JsonView::UInt(raw@[0] as u64),
                        JsonView::UInt(raw@[1] as u64),
                        JsonView::UInt(raw@[2] as u64),
                        JsonView::UInt(raw@[3] as u64),
                    ],
                ),
            )
            &&& holds(
                m,
                key + "ConstantCodec"@,
                JsonView::Str(crate::native_texture::codec_name(codec)),
            )
            &&& space matches Some(c) ==> holds(
                m,
                key + "ConstantColorSpace"@,
                JsonView::Str(crate::native_texture::color_space_name(c)),
            )
        },
    }
}

/// What was loaded is said behind what was said.
proof fn lemma_loaded(
    m: Seq<(Seq<char>, JsonView)>,
    key: Seq<char>,
    loaded: Loaded,
    space: Option<ColorSpace>,
)
    ensures
        holds_loaded(
            crate::gltf_material::with_loaded(m, key, loaded, space),
            key,
            loaded,
            space,
        ),
        m.is_prefix_of(crate::gltf_material::with_loaded(m, key, loaded, space)),
{
    let n = crate::gltf_material::with_loaded(m, key, loaded, space);
    lemma_holds(n, m.len() as int);
    if loaded is Constant {
        let raw = loaded->Constant_raw;
        lemma_holds(n, m.len() as int + 1);
        if space is Some {
            lemma_holds(n, m.len() as int + 2);
        }
        assert(crate::gltf_material::bytes_json(raw@) =~= seq![
            JsonView::UInt(raw@[0] as u64),
            JsonView::UInt(raw@[1] as u64),
            JsonView::UInt(raw@[2] as u64),
            JsonView::UInt(raw@[3] as u64),
        ]);
    }
}

/// The same where something may have been loaded.
proof fn lemma_also_loaded(
    m: Seq<(Seq<char>, JsonView)>,
    key: Seq<char>,
    loaded: Option<Loaded>,
    space: Option<ColorSpace>,
)
    ensures
        loaded matches Some(l) ==> holds_loaded(
            crate::gltf_material::also_loaded(m, key, loaded, space),
            key,
            l,
            space,
        ),
        m.is_prefix_of(crate::gltf_material::also_loaded(m, key, loaded, space)),
{
    if loaded is Some {
        lemma_loaded(m, key, loaded->Some_0, space);
    }
}

/// A list of singles of a document.
pub open spec fn singles(v: Seq<u32>) -> JsonView {
    JsonView::Array(Seq::new(v.len(), |i: int| JsonView::Single(v[i])))
}

/// The extras of a material begin with what its alpha means, its blend mode where it has one, its tint
/// and what was loaded for its tint mask, its base colour and its normals.
pub proof fn extras_say_what_was_loaded(
    r: ResolvedView,
    inputs: MaterialInputs,
    loads: Seq<Option<Loaded>>,
)
    requires
        loads.len() == 13,
    ensures
        crate::gltf_material::extras_json(r, inputs, loads) matches JsonView::Object(m) && {
            &&& holds(m, "baseColorAlphaMeaning"@, JsonView::Str(r.base_color_alpha_meaning))
            &&& r.mod2x ==> holds(m, "blendMode"@, JsonView::Str("mod2x"@))
            &&& inputs.tint matches Some(t) ==> holds(m, "tint"@, singles(t@))
            &&& inputs.tint is Some && loads[0] is Some ==> holds_loaded(
                m,
                "tintMask"@,
                loads[0]->Some_0,
                None,
            )
            &&& loads[1] matches Some(l) ==> holds_loaded(
                m,
                "baseColor"@,
                l,
                Some(
                    if r.mod2x {
                        ColorSpace::Linear
                    } else {
                        ColorSpace::Srgb
                    },
                ),
            )
            &&& loads[2] matches Some(l) ==> holds_loaded(m, "normal"@, l, None)
        },
{
    let c = crate::gltf_material::extras_colors(r, inputs, loads);
    let m0 = crate::json::empty().push(
        ("baseColorAlphaMeaning"@, JsonView::Str(r.base_color_alpha_meaning)),
    );
    let m1 = if r.mod2x {
        m0.push(("blendMode"@, JsonView::Str("mod2x"@)))
    } else {
        m0
    };
    lemma_holds(m1, 0);
    if r.mod2x {
        lemma_holds(m1, 1);
    }
    let t = match inputs.tint {
        Some(t) => m1.push(("tint"@, JsonView::Array(crate::json::floats(t@)))),
        None => m1,
    };
    if inputs.tint is Some {
        lemma_holds(t, m1.len() as int);
        assert(singles(inputs.tint->Some_0@)->Array_0 =~= crate::json::floats(
            inputs.tint->Some_0@,
        ));
    }
    lemma_still_holds(m1, t);
    let m2 = if inputs.tint is Some {
        crate::gltf_material::also_loaded(t, "tintMask"@, loads[0], None)
    } else {
        t
    };
    lemma_also_loaded(t, "tintMask"@, loads[0], None);
    lemma_still_holds(t, m2);
    let space = Some(crate::gltf_material::base_space(r));
    let m3 = crate::gltf_material::also_loaded(m2, "baseColor"@, loads[1], space);
    lemma_also_loaded(m2, "baseColor"@, loads[1], space);
    lemma_still_holds(m2, m3);
    lemma_also_loaded(m3, "normal"@, loads[2], None);
    lemma_still_holds(m3, c);
    lemma_layers_behind(c, r, inputs, loads);
    let w = crate::gltf_material::with_layers(c, r, inputs, loads);
    lemma_surface_behind(w, r, inputs, loads);
    lemma_still_holds(c, w);
    lemma_still_holds(w, crate::gltf_material::with_surface(w, r, inputs, loads));
}

/// What is said of layers stands behind.
proof fn lemma_layers_behind(
    m: Seq<(Seq<char>, JsonView)>,
    r: ResolvedView,
    inputs: MaterialInputs,
    loads: Seq<Option<Loaded>>,
)
    ensures
        m.is_prefix_of(crate::gltf_material::with_layers(m, r, inputs, loads)),
{
}

/// What is said of the surface stands behind.
proof fn lemma_surface_behind(
    m: Seq<(Seq<char>, JsonView)>,
    r: ResolvedView,
    inputs: MaterialInputs,
    loads: Seq<Option<Loaded>>,
)
    ensures
        m.is_prefix_of(crate::gltf_material::with_surface(m, r, inputs, loads)),
{
    let l = crate::gltf_material::got(loads, 10);
    if l is Some {
        lemma_loaded(m, "ao"@, l->Some_0, None);
    }
}

/// Whether members say of a surface what was loaded for its occlusion, in which channel; for its
/// metalness, or the number of it; for the light it gives off, with the numbers of that; and whether it
/// shines at full roughness and lies in the fog.
pub open spec fn holds_surface(
    m: Seq<(Seq<char>, JsonView)>,
    r: ResolvedView,
    inputs: MaterialInputs,
    loads: Seq<Option<Loaded>>,
) -> bool {
    &&& loads[10] matches Some(l) ==> holds_loaded(m, "ao"@, l, None) && holds(
        m,
        "aoChannel"@,
        JsonView::Str("r"@),
    )
    &&& match r.metalness {
        MetalnessView::Texture(_) => loads[11] matches Some(l) ==> holds_loaded(
            m,
            "metalness"@,
            l,
            None,
        ) && holds(m, "metalnessChannel"@, JsonView::Str("g"@)),
        MetalnessView::Scalar(v) => holds(m, "metalnessValue"@, JsonView::Single(v)),
    }
    &&& r.self_illum is Some && loads[12] is Some ==> {
        let s = r.self_illum->Some_0;
        &&& holds_loaded(m, "selfIllum"@, loads[12]->Some_0, Some(ColorSpace::Srgb))
        &&& holds(m, "selfIllumScale"@, JsonView::Single(s.scale))
        &&& holds(m, "selfIllumBrightness"@, JsonView::Single(s.brightness))
        &&& holds(m, "selfIllumTint"@, singles(inputs.self_illum_tint@))
        &&& holds(m, "selfIllumAlbedoFactor"@, JsonView::Single(s.albedo_factor))
    }
    &&& holds(m, "noSpecularAtFullRoughness"@, JsonView::Bool(r.no_specular_at_full_roughness))
    &&& holds(m, "fogEnabled"@, JsonView::Bool(r.fog_enabled))
}

/// What is said of the occlusion.
proof fn lemma_ao(m: Seq<(Seq<char>, JsonView)>, l: Loaded, all: Seq<(Seq<char>, JsonView)>)
    requires
        crate::gltf_material::with_loaded(m, "ao"@, l, None).push(
            ("aoChannel"@, JsonView::Str("r"@)),
        ).is_prefix_of(all),
    ensures
        holds_loaded(all, "ao"@, l, None),
        holds(all, "aoChannel"@, JsonView::Str("r"@)),
{
    let a = crate::gltf_material::with_loaded(m, "ao"@, l, None);
    let b = a.push(("aoChannel"@, JsonView::Str("r"@)));
    lemma_loaded(m, "ao"@, l, None);
    assert(a.is_prefix_of(all)) by {
        assert(b.drop_last() =~= a);
        assert(a =~= all.subrange(0, a.len() as int)) by {
            assert(b =~= all.subrange(0, b.len() as int));
        }
    }
    lemma_still_holds(a, all);
    lemma_holds(b, a.len() as int);
    lemma_still_holds(b, all);
}

/// What is said of the metalness.
proof fn lemma_metalness(m: Seq<(Seq<char>, JsonView)>, l: Loaded, all: Seq<(Seq<char>, JsonView)>)
    requires
        crate::gltf_material::with_loaded(m, "metalness"@, l, None).push(
            ("metalnessChannel"@, JsonView::Str("g"@)),
        ).is_prefix_of(all),
    ensures
        holds_loaded(all, "metalness"@, l, None),
        holds(all, "metalnessChannel"@, JsonView::Str("g"@)),
{
    let a = crate::gltf_material::with_loaded(m, "metalness"@, l, None);
    let b = a.push(("metalnessChannel"@, JsonView::Str("g"@)));
    lemma_loaded(m, "metalness"@, l, None);
    assert(a.is_prefix_of(all)) by {
        assert(a =~= all.subrange(0, a.len() as int)) by {
            assert(b =~= all.subrange(0, b.len() as int));
        }
    }
    lemma_still_holds(a, all);
    lemma_holds(b, a.len() as int);
    lemma_still_holds(b, all);
}

/// What is said of the light that is given off.
proof fn lemma_glow(
    m: Seq<(Seq<char>, JsonView)>,
    s: crate::material::SelfIllumView,
    tint: Seq<u32>,
    l: Loaded,
    all: Seq<(Seq<char>, JsonView)>,
)
    requires
        crate::gltf_material::with_loaded(m, "selfIllum"@, l, Some(ColorSpace::Srgb)).push(
            ("selfIllumScale"@, JsonView::Single(s.scale)),
        ).push(("selfIllumBrightness"@, JsonView::Single(s.brightness))).push(
            ("selfIllumTint"@, JsonView::Array(crate::json::floats(tint))),
        ).push(("selfIllumAlbedoFactor"@, JsonView::Single(s.albedo_factor))).is_prefix_of(all),
    ensures
        holds_loaded(all, "selfIllum"@, l, Some(ColorSpace::Srgb)),
        holds(all, "selfIllumScale"@, JsonView::Single(s.scale)),
        holds(all, "selfIllumBrightness"@, JsonView::Single(s.brightness)),
        holds(all, "selfIllumTint"@, singles(tint)),
        holds(all, "selfIllumAlbedoFactor"@, JsonView::Single(s.albedo_factor)),
{
    let a = crate::gltf_material::with_loaded(m, "selfIllum"@, l, Some(ColorSpace::Srgb));
    let b = a.push(("selfIllumScale"@, JsonView::Single(s.scale))).push(
        ("selfIllumBrightness"@, JsonView::Single(s.brightness)),
    ).push(("selfIllumTint"@, JsonView::Array(crate::json::floats(tint)))).push(
        ("selfIllumAlbedoFactor"@, JsonView::Single(s.albedo_factor)),
    );
    lemma_loaded(m, "selfIllum"@, l, Some(ColorSpace::Srgb));
    assert(a.is_prefix_of(all)) by {
        assert(a =~= all.subrange(0, a.len() as int)) by {
            assert(b =~= all.subrange(0, b.len() as int));
        }
    }
    lemma_still_holds(a, all);
    lemma_holds(b, a.len() as int);
    lemma_holds(b, a.len() as int + 1);
    lemma_holds(b, a.len() as int + 2);
    lemma_holds(b, a.len() as int + 3);
    assert(singles(tint)->Array_0 =~= crate::json::floats(tint));
    lemma_still_holds(b, all);
}

/// What is said of a surface, behind whatever was said.
#[verifier::spinoff_prover]
#[verifier::rlimit(50)]
proof fn lemma_surface(
    m: Seq<(Seq<char>, JsonView)>,
    r: ResolvedView,
    inputs: MaterialInputs,
    loads: Seq<Option<Loaded>>,
)
    requires
        loads.len() == 13,
    ensures
        holds_surface(crate::gltf_material::with_surface(m, r, inputs, loads), r, inputs, loads),
{
    let all = crate::gltf_material::with_surface(m, r, inputs, loads);
    let m1 = match loads[10] {
        Some(l) => crate::gltf_material::with_loaded(m, "ao"@, l, None).push(
            ("aoChannel"@, JsonView::Str("r"@)),
        ),
        None => m,
    };
    let m2 = match r.metalness {
        MetalnessView::Texture(_) => match loads[11] {
            Some(l) => crate::gltf_material::with_loaded(m1, "metalness"@, l, None).push(
                ("metalnessChannel"@, JsonView::Str("g"@)),
            ),
            None => m1,
        },
        MetalnessView::Scalar(v) => m1.push(("metalnessValue"@, JsonView::Single(v))),
    };
    let n = all.len() as int;
    lemma_holds(all, n - 1);
    lemma_holds(all, n - 2);
    if r.metalness is Texture && loads[11] is Some {
        lemma_loaded(m1, "metalness"@, loads[11]->Some_0, None);
    }
    assert(m1.is_prefix_of(m2));
    let m3 = if r.self_illum is Some && loads[12] is Some {
        let s = r.self_illum->Some_0;
        lemma_loaded(m2, "selfIllum"@, loads[12]->Some_0, Some(ColorSpace::Srgb));
        crate::gltf_material::with_loaded(
            m2,
            "selfIllum"@,
            loads[12]->Some_0,
            Some(ColorSpace::Srgb),
        ).push(("selfIllumScale"@, JsonView::Single(s.scale))).push(
            ("selfIllumBrightness"@, JsonView::Single(s.brightness)),
        ).push(
            (
                "selfIllumTint"@,
                JsonView::Array(crate::json::floats(inputs.self_illum_tint@)),
            ),
        ).push(("selfIllumAlbedoFactor"@, JsonView::Single(s.albedo_factor)))
    } else {
        m2
    };
    assert(m2.is_prefix_of(m3));
    assert(m3.is_prefix_of(all));
    lemma_prefix(m2, m3, all);
    lemma_prefix(m1, m2, all);
    if loads[10] is Some {
        lemma_ao(m, loads[10]->Some_0, all);
    }
    if r.metalness is Texture && loads[11] is Some {
        lemma_metalness(m1, loads[11]->Some_0, all);
    }
    if r.metalness is Scalar {
        lemma_holds(m2, m1.len() as int);
        lemma_still_holds(m2, all);
    }
    if r.self_illum is Some && loads[12] is Some {
        lemma_glow(m2, r.self_illum->Some_0, inputs.self_illum_tint@, loads[12]->Some_0, all);
    }
}

/// What begins with what begins with something begins with it.
proof fn lemma_prefix(
    a: Seq<(Seq<char>, JsonView)>,
    b: Seq<(Seq<char>, JsonView)>,
    c: Seq<(Seq<char>, JsonView)>,
)
    requires
        a.is_prefix_of(b),
        b.is_prefix_of(c),
    ensures
        a.is_prefix_of(c),
{
    assert(a =~= c.subrange(0, a.len() as int)) by {
        assert(b =~= c.subrange(0, b.len() as int));
        assert(a =~= b.subrange(0, a.len() as int));
    }
}

/// The extras of a material say what its surface is.
pub proof fn extras_say_what_the_surface_is(
    r: ResolvedView,
    inputs: MaterialInputs,
    loads: Seq<Option<Loaded>>,
)
    requires
        loads.len() == 13,
    ensures
        crate::gltf_material::extras_json(r, inputs, loads) matches JsonView::Object(m)
            && holds_surface(m, r, inputs, loads),
{
    let c = crate::gltf_material::extras_colors(r, inputs, loads);
    lemma_surface(crate::gltf_material::with_layers(c, r, inputs, loads), r, inputs, loads);
}

/// Whether a document holds a value under a key.
pub open spec fn says(j: JsonView, key: Seq<char>, value: JsonView) -> bool {
    j matches JsonView::Object(m) && holds(m, key, value)
}

/// The second layer of a material says what was loaded for its colour, its normals and its weights.
pub proof fn a_second_layer_says_what_was_loaded(loads: Seq<Option<Loaded>>)
    requires
        loads.len() == 13,
    ensures
        crate::gltf_material::layers_json(loads) matches JsonView::Object(m) && {
            &&& loads[3] matches Some(l) ==> holds_loaded(
                m,
                "layer2Color"@,
                l,
                Some(ColorSpace::Srgb),
            )
            &&& loads[4] matches Some(l) ==> holds_loaded(m, "layer2Normal"@, l, None)
            &&& loads[5] matches Some(l) ==> holds_loaded(m, "blendModulation"@, l, None)
        },
{
    let m0 = crate::json::empty();
    let m1 = crate::gltf_material::also_loaded(
        m0,
        "layer2Color"@,
        loads[3],
        Some(ColorSpace::Srgb),
    );
    let m2 = crate::gltf_material::also_loaded(m1, "layer2Normal"@, loads[4], None);
    let m3 = crate::gltf_material::also_loaded(m2, "blendModulation"@, loads[5], None);
    let m = crate::gltf_material::layers_json(loads)->Object_0;
    lemma_also_loaded(m0, "layer2Color"@, loads[3], Some(ColorSpace::Srgb));
    lemma_also_loaded(m1, "layer2Normal"@, loads[4], None);
    lemma_also_loaded(m2, "blendModulation"@, loads[5], None);
    lemma_prefix(m2, m3, m);
    lemma_prefix(m1, m2, m);
    lemma_still_holds(m1, m);
    lemma_still_holds(m2, m);
    lemma_still_holds(m3, m);
}

/// Whether members hold the numbers of a height layer; their keys end in its number.
pub open spec fn holds_height(
    m: Seq<(Seq<char>, JsonView)>,
    e: EnvHeightView,
    matrices: ColorMatrices,
    second: bool,
) -> bool {
    if second {
        &&& holds(m, "roughnessContrast2"@, JsonView::Single(e.roughness_contrast))
        &&& holds(m, "roughnessBrightness2"@, JsonView::Single(e.roughness_brightness))
        &&& holds(m, "normalContrast2"@, JsonView::Single(e.normal_contrast))
        &&& holds(m, "aoLevels2"@, singles(seq![e.ao_levels.x, e.ao_levels.y, e.ao_levels.z]))
        &&& holds(m, "metalnessEnabled2"@, JsonView::Bool(e.metalness_enabled))
        &&& holds(m, "uvScale2"@, singles(seq![e.uv_scale.x, e.uv_scale.y]))
        &&& holds(m, "uvOffset2"@, singles(seq![e.uv_offset.x, e.uv_offset.y]))
        &&& holds(m, "uvRotation2"@, JsonView::Single(e.uv_rotation))
        &&& holds(m, "colorAdjust2"@, singles(matrices.color_adjust@))
        &&& holds(m, "adjust2"@, singles(matrices.adjust@))
        &&& holds(m, "colorCorrectionMode2"@, JsonView::Int(e.color_correction_mode))
        &&& holds(m, "tintMaskContrast2"@, JsonView::Single(e.tint_mask_contrast))
        &&& holds(m, "tintMaskBrightness2"@, JsonView::Single(e.tint_mask_brightness))
    } else {
        &&& holds(m, "roughnessContrast1"@, JsonView::Single(e.roughness_contrast))
        &&& holds(m, "roughnessBrightness1"@, JsonView::Single(e.roughness_brightness))
        &&& holds(m, "normalContrast1"@, JsonView::Single(e.normal_contrast))
        &&& holds(m, "aoLevels1"@, singles(seq![e.ao_levels.x, e.ao_levels.y, e.ao_levels.z]))
        &&& holds(m, "metalnessEnabled1"@, JsonView::Bool(e.metalness_enabled))
        &&& holds(m, "uvScale1"@, singles(seq![e.uv_scale.x, e.uv_scale.y]))
        &&& holds(m, "uvOffset1"@, singles(seq![e.uv_offset.x, e.uv_offset.y]))
        &&& holds(m, "colorAdjust1"@, singles(matrices.color_adjust@))
        &&& holds(m, "adjust1"@, singles(matrices.adjust@))
        &&& holds(m, "colorCorrectionMode1"@, JsonView::Int(e.color_correction_mode))
        &&& holds(m, "tintMaskContrast1"@, JsonView::Single(e.tint_mask_contrast))
        &&& holds(m, "tintMaskBrightness1"@, JsonView::Single(e.tint_mask_brightness))
    }
}

/// A list of singles is one of a document.
pub proof fn lemma_singles(v: Seq<u32>)
    ensures
        singles(v) == JsonView::Array(crate::json::floats(v)),
{
    assert(singles(v)->Array_0 =~= crate::json::floats(v));
}

/// The first layer of an environment says what was loaded for its height, and its numbers.
#[verifier::spinoff_prover]
#[verifier::rlimit(30)]
pub proof fn a_first_height_layer_says_its_numbers(
    e: EnvHeightView,
    inputs: MaterialInputs,
    height1: Loaded,
)
    ensures
        crate::gltf_material::env1_json(e, inputs, height1) matches JsonView::Object(m) && {
            &&& holds_loaded(m, "height1"@, height1, None)
            &&& holds_height(m, e, inputs.matrices1, false)
        },
{
    let a = crate::gltf_material::with_loaded(crate::json::empty(), "height1"@, height1, None);
    let m = crate::gltf_material::env1_json(e, inputs, height1)->Object_0;
    let n = a.len() as int;
    lemma_loaded(crate::json::empty(), "height1"@, height1, None);
    lemma_still_holds(a, m);
    lemma_holds(m, n);
    lemma_holds(m, n + 1);
    lemma_holds(m, n + 2);
    lemma_holds(m, n + 3);
    lemma_holds(m, n + 4);
    lemma_holds(m, n + 5);
    lemma_holds(m, n + 6);
    lemma_holds(m, n + 7);
    lemma_holds(m, n + 8);
    lemma_holds(m, n + 9);
    lemma_holds(m, n + 10);
    lemma_holds(m, n + 11);
    lemma_singles(seq![e.ao_levels.x, e.ao_levels.y, e.ao_levels.z]);
    lemma_singles(seq![e.uv_scale.x, e.uv_scale.y]);
    lemma_singles(seq![e.uv_offset.x, e.uv_offset.y]);
    lemma_singles(inputs.matrices1.color_adjust@);
    lemma_singles(inputs.matrices1.adjust@);
}

/// What the second layer of an environment says first.
#[verifier::spinoff_prover]
#[verifier::rlimit(30)]
proof fn lemma_heights(
    e: EnvLayer2View,
    color2: Loaded,
    normal2: Loaded,
    height2: Loaded,
    all: Seq<(Seq<char>, JsonView)>,
)
    requires
        crate::gltf_material::env2_heights(e, color2, normal2, height2).is_prefix_of(all),
    ensures
        holds_loaded(all, "color2"@, color2, Some(ColorSpace::Srgb)),
        holds_loaded(all, "normal2"@, normal2, None),
        holds_loaded(all, "height2"@, height2, None),
        holds(all, "roughnessContrast2"@, JsonView::Single(e.height.roughness_contrast)),
        holds(all, "roughnessBrightness2"@, JsonView::Single(e.height.roughness_brightness)),
        holds(all, "normalContrast2"@, JsonView::Single(e.height.normal_contrast)),
        holds(
            all,
            "aoLevels2"@,
            singles(seq![e.height.ao_levels.x, e.height.ao_levels.y, e.height.ao_levels.z]),
        ),
        holds(all, "metalnessEnabled2"@, JsonView::Bool(e.height.metalness_enabled)),
        holds(all, "heightScale1"@, JsonView::Single(e.height_scale1)),
        holds(all, "heightZeroPoint1"@, JsonView::Single(e.height_zero_point1)),
        holds(all, "heightScale2"@, JsonView::Single(e.height_scale2)),
        holds(all, "heightZeroPoint2"@, JsonView::Single(e.height_zero_point2)),
        holds(all, "blendSoftness2"@, JsonView::Single(e.blend_softness2)),
{
    let m0 = crate::json::empty();
    let m1 = crate::gltf_material::with_loaded(m0, "color2"@, color2, Some(ColorSpace::Srgb));
    let m2 = crate::gltf_material::with_loaded(m1, "normal2"@, normal2, None);
    let m3 = crate::gltf_material::with_loaded(m2, "height2"@, height2, None);
    let h = crate::gltf_material::env2_heights(e, color2, normal2, height2);
    lemma_loaded(m0, "color2"@, color2, Some(ColorSpace::Srgb));
    lemma_loaded(m1, "normal2"@, normal2, None);
    lemma_loaded(m2, "height2"@, height2, None);
    assert(m3.is_prefix_of(h));
    lemma_prefix(m3, h, all);
    lemma_prefix(m2, m3, all);
    lemma_prefix(m1, m2, all);
    lemma_still_holds(m1, all);
    lemma_still_holds(m2, all);
    lemma_still_holds(m3, all);
    let n = m3.len() as int;
    lemma_holds(h, n);
    lemma_holds(h, n + 1);
    lemma_holds(h, n + 2);
    lemma_holds(h, n + 3);
    lemma_holds(h, n + 4);
    lemma_holds(h, n + 5);
    lemma_holds(h, n + 6);
    lemma_holds(h, n + 7);
    lemma_holds(h, n + 8);
    lemma_holds(h, n + 9);
    lemma_singles(seq![e.height.ao_levels.x, e.height.ao_levels.y, e.height.ao_levels.z]);
    lemma_still_holds(h, all);
}

/// The second layer of an environment says what was loaded for its colour, its normals and its height,
/// its numbers, those by which the two heights are blended, and which way it faces where it goes by
/// that.
#[verifier::spinoff_prover]
#[verifier::rlimit(50)]
pub proof fn a_second_height_layer_says_its_numbers(
    e: EnvLayer2View,
    inputs: MaterialInputs,
    color2: Loaded,
    normal2: Loaded,
    height2: Loaded,
)
    ensures
        crate::gltf_material::env2_json(e, inputs, color2, normal2, height2) matches JsonView::Object(
            m,
        ) && {
            &&& holds_loaded(m, "color2"@, color2, Some(ColorSpace::Srgb))
            &&& holds_loaded(m, "normal2"@, normal2, None)
            &&& holds_loaded(m, "height2"@, height2, None)
            &&& holds_height(m, e.height, inputs.matrices2, true)
            &&& holds(m, "heightScale1"@, JsonView::Single(e.height_scale1))
            &&& holds(m, "heightZeroPoint1"@, JsonView::Single(e.height_zero_point1))
            &&& holds(m, "heightScale2"@, JsonView::Single(e.height_scale2))
            &&& holds(m, "heightZeroPoint2"@, JsonView::Single(e.height_zero_point2))
            &&& holds(m, "blendSoftness2"@, JsonView::Single(e.blend_softness2))
            &&& e.facing2 is Some ==> holds(
                m,
                "facingDirection2"@,
                singles(inputs.facing_direction@),
            ) && holds(m, "facingMinMax2"@, singles(inputs.facing_min_max@))
        },
{
    let m = crate::gltf_material::env2_json(e, inputs, color2, normal2, height2)->Object_0;
    let h = crate::gltf_material::env2_heights(e, color2, normal2, height2);
    assert(h.is_prefix_of(m));
    lemma_heights(e, color2, normal2, height2, m);
    let a = if e.unsupported.len() > 0 {
        h.len() as int + 1
    } else {
        h.len() as int
    };
    lemma_holds(m, a);
    lemma_holds(m, a + 1);
    lemma_holds(m, a + 2);
    if e.facing2 is Some {
        lemma_holds(m, a + 3);
        lemma_holds(m, a + 4);
    }
    let n = m.len() as int;
    lemma_holds(m, n - 6);
    lemma_holds(m, n - 5);
    lemma_holds(m, n - 4);
    lemma_holds(m, n - 3);
    lemma_holds(m, n - 2);
    lemma_singles(seq![e.height.uv_scale.x, e.height.uv_scale.y]);
    lemma_singles(seq![e.height.uv_offset.x, e.height.uv_offset.y]);
    lemma_singles(inputs.facing_direction@);
    lemma_singles(inputs.facing_min_max@);
    lemma_singles(inputs.matrices2.color_adjust@);
    lemma_singles(inputs.matrices2.adjust@);
}

/// The extras hold the second layer where there is one; that of an environment only where all three of
/// its textures were loaded; and the first of an environment where its height was.
pub proof fn extras_hold_the_layers(
    r: ResolvedView,
    inputs: MaterialInputs,
    loads: Seq<Option<Loaded>>,
)
    requires
        loads.len() == 13,
    ensures
        crate::gltf_material::extras_json(r, inputs, loads) matches JsonView::Object(m) && {
            &&& r.layers is Some ==> holds(
                m,
                "layers"@,
                crate::gltf_material::layers_json(loads),
            )
            &&& r.env_layer2 is Some && loads[6] is Some && loads[7] is Some && loads[8] is Some
                ==> holds(
                m,
                "envLayer2"@,
                crate::gltf_material::env2_json(
                    r.env_layer2->Some_0,
                    inputs,
                    loads[6]->Some_0,
                    loads[7]->Some_0,
                    loads[8]->Some_0,
                ),
            )
            &&& r.env1 is Some && loads[9] is Some ==> holds(
                m,
                "env1"@,
                crate::gltf_material::env1_json(r.env1->Some_0, inputs, loads[9]->Some_0),
            )
        },
{
    let c = crate::gltf_material::extras_colors(r, inputs, loads);
    let w = crate::gltf_material::with_layers(c, r, inputs, loads);
    let n = c.len() as int;
    let l = if r.layers is Some {
        n + 1
    } else {
        n
    };
    if r.layers is Some {
        lemma_holds(w, n);
    }
    if r.env_layer2 is Some && loads[6] is Some && loads[7] is Some && loads[8] is Some {
        lemma_holds(w, l);
    }
    if r.env1 is Some && loads[9] is Some {
        lemma_holds(w, w.len() - 1);
    }
    lemma_surface_behind(w, r, inputs, loads);
    lemma_still_holds(w, crate::gltf_material::with_surface(w, r, inputs, loads));
}

/// A material says its name, its factors, how its alpha is used and from where it is cut, whether both
/// sides are drawn and whether it is lit.
pub proof fn a_material_says_what_it_amounts_to(
    path: Seq<char>,
    r: ResolvedView,
    inputs: MaterialInputs,
    loads: Seq<Option<Loaded>>,
)
    ensures
        ({
            let j = crate::gltf_material::material_json(path, r, inputs, loads);
            &&& says(j, "name"@, JsonView::Str(path))
            &&& exists|p: JsonView| #[trigger]
                says(j, "pbrMetallicRoughness"@, p) && is_pbr(p, r, inputs)
            &&& says(
                j,
                "alphaMode"@,
                JsonView::Str(
                    match r.alpha_mode {
                        AlphaMode::Opaque => "OPAQUE"@,
                        AlphaMode::Mask => "MASK"@,
                        AlphaMode::Blend => "BLEND"@,
                    },
                ),
            )
            &&& r.alpha_cutoff matches Some(c) ==> says(j, "alphaCutoff"@, JsonView::Single(c))
            &&& r.double_sided ==> says(j, "doubleSided"@, JsonView::Bool(true))
            &&& r.unlit ==> exists|e: JsonView| #[trigger]
                says(j, "extensions"@, e) && says(
                    e,
                    "KHR_materials_unlit"@,
                    JsonView::Object(Seq::empty()),
                )
            &&& says(j, "extras"@, crate::gltf_material::extras_json(r, inputs, loads))
            &&& j matches JsonView::Object(m) && m.len() == 4 + (if r.alpha_cutoff is Some {
                1int
            } else {
                0
            }) + (if r.double_sided {
                1int
            } else {
                0
            }) + (if r.unlit {
                1int
            } else {
                0
            })
        }),
{
    let j = crate::gltf_material::material_json(path, r, inputs, loads);
    let m = j->Object_0;
    lemma_holds(m, 0);
    lemma_holds(m, 1);
    lemma_holds(m, 2);
    let p = m[1].1->Object_0;
    lemma_holds(p, 0);
    lemma_holds(p, 1);
    lemma_holds(p, 2);
    lemma_singles(crate::gltf_material::base_factor(r, inputs));
    if r.constant_black {
        assert(seq![0u32, 0u32, 0u32, inputs.base_color@[3]]
            =~= crate::gltf_material::base_factor(r, inputs));
    }
    assert(says(j, "pbrMetallicRoughness"@, m[1].1));
    let d = if r.alpha_cutoff is Some {
        4int
    } else {
        3
    };
    let u = if r.double_sided {
        d + 1
    } else {
        d
    };
    if r.alpha_cutoff is Some {
        lemma_holds(m, 3);
    }
    if r.double_sided {
        lemma_holds(m, d);
    }
    if r.unlit {
        lemma_holds(m, u);
        lemma_holds(m[u].1->Object_0, 0);
        assert(says(j, "extensions"@, m[u].1));
    }
    lemma_holds(m, m.len() - 1);
}

/// Whether the factors of a material are its base colour, black where it is that, no metalness and full
/// roughness.
pub open spec fn is_pbr(p: JsonView, r: ResolvedView, inputs: MaterialInputs) -> bool {
    &&& says(
        p,
        "baseColorFactor"@,
        singles(
            if r.constant_black {
                seq![0u32, 0u32, 0u32, inputs.base_color@[3]]
            } else {
                inputs.base_color@
            },
        ),
    )
    &&& says(p, "metallicFactor"@, JsonView::Single(0))
    &&& says(p, "roughnessFactor"@, JsonView::Single(0x3F80_0000))
    &&& p matches JsonView::Object(m) && m.len() == 3
}

/// The slots are numbered as the extras go through them.
pub proof fn slots_are_numbered_in_order()
    ensures
        crate::gltf_material::slot_of(0) == Slot::TintMask,
        crate::gltf_material::slot_of(1) == Slot::BaseColor,
        crate::gltf_material::slot_of(2) == Slot::Normal,
        crate::gltf_material::slot_of(3) == Slot::Layer2Color,
        crate::gltf_material::slot_of(4) == Slot::Layer2Normal,
        crate::gltf_material::slot_of(5) == Slot::BlendModulation,
        crate::gltf_material::slot_of(6) == Slot::Color2,
        crate::gltf_material::slot_of(7) == Slot::Normal2,
        crate::gltf_material::slot_of(8) == Slot::Height2,
        crate::gltf_material::slot_of(9) == Slot::Height1,
        crate::gltf_material::slot_of(10) == Slot::Ao,
        crate::gltf_material::slot_of(11) == Slot::Metalness,
        crate::gltf_material::slot_of(12) == Slot::SelfIllum,
{
}

/// What is not drawn of a layer is said with its reason, in order.
pub proof fn flags_are_said_with_their_reasons(v: Seq<(Seq<char>, Seq<char>)>, i: int)
    requires
        0 <= i < v.len(),
    ensures
        crate::gltf_material::flags_json(v).len() == v.len(),
        says(crate::gltf_material::flags_json(v)[i], "flag"@, JsonView::Str(v[i].0)),
        says(crate::gltf_material::flags_json(v)[i], "why"@, JsonView::Str(v[i].1)),
{
    let m = crate::gltf_material::flags_json(v)[i]->Object_0;
    lemma_holds(m, 0);
    lemma_holds(m, 1);
}

} // verus!
