//! What a material's parameters resolve to, and where its tint goes.

use s2render::bits::F32_ONE;
use s2render::gltf_material::{
    base_color_factor, slot_at, texture_request, write_extras, write_material, ColorMatrices,
    MaterialInputs, Slot, TextureRole, SLOT_COUNT,
};
use s2render::json::{get, Json};
use s2render::kv::{Number, Object, Resource, Value};
use s2render::material::{
    decode_material, resolve, strip_vfx, AlphaMode, MaterialError, MetalnessSource, RawMaterial,
    ResolvedMaterial, Vector3, Vector4,
};
use s2render::native_texture::{Codec, ColorSpace, Loaded};

fn base_material(shader: &str) -> RawMaterial {
    RawMaterial {
        shader: shader.to_string(),
        ..Default::default()
    }
}

fn bits3(v: [f32; 3]) -> Vector3 {
    Vector3 { x: v[0].to_bits(), y: v[1].to_bits(), z: v[2].to_bits() }
}

fn srgb_to_linear(c: [f32; 3]) -> [f32; 3] {
    c.map(|v| {
        if v <= 0.04045 {
            v / 12.92
        } else {
            ((v + 0.055) / 1.055).powf(2.4)
        }
    })
}

/// The tint of a material on an instance, made linear.
fn linear_tint(resolved: &ResolvedMaterial, tint: [f32; 4]) -> [u32; 3] {
    let amount = f32::from_bits(resolved.model_tint_amount);
    let own = [resolved.color_tint.x, resolved.color_tint.y, resolved.color_tint.z];
    let mut mixed = [0.0f32; 3];
    for c in 0..3 {
        mixed[c] = (1.0 + (tint[c] - 1.0) * amount) * f32::from_bits(own[c]);
    }
    srgb_to_linear(mixed).map(f32::to_bits)
}

fn factor_of(resolved: &ResolvedMaterial, tint: [f32; 4]) -> ([f32; 4], Option<[f32; 3]>) {
    let (factor, beside) =
        base_color_factor(resolved, linear_tint(resolved, tint), tint[3].to_bits());
    (factor.map(f32::from_bits), beside.map(|b| b.map(f32::from_bits)))
}

#[test]
fn opaque_by_default() {
    let mat = base_material("csgo_vertexlitgeneric");
    let r = resolve(&mat);
    assert_eq!(r.alpha_mode, AlphaMode::Opaque);
    assert!(r.alpha_cutoff.is_none());
    assert!(!r.mod2x);
}

#[test]
fn alpha_test_sets_mask_with_cutoff() {
    let mut mat = base_material("csgo_vertexlitgeneric");
    mat.int_params.insert("F_ALPHA_TEST".into(), 1);
    mat.float_params
        .insert("g_flAlphaTestReference".into(), 0.7f32.to_bits());
    let r = resolve(&mat);
    assert_eq!(r.alpha_mode, AlphaMode::Mask);
    assert_eq!(r.alpha_cutoff.map(f32::from_bits), Some(0.7));
}

#[test]
fn translucent_flag_wins_over_alpha_test() {
    let mut mat = base_material("csgo_vertexlitgeneric");
    mat.int_params.insert("F_ALPHA_TEST".into(), 1);
    mat.int_params.insert("F_TRANSLUCENT".into(), 1);
    let r = resolve(&mat);
    assert_eq!(r.alpha_mode, AlphaMode::Blend);
}

#[test]
fn glass_and_effects_shaders_are_always_translucent() {
    assert_eq!(resolve(&base_material("csgo_glass")).alpha_mode, AlphaMode::Blend);
    assert_eq!(resolve(&base_material("csgo_effects")).alpha_mode, AlphaMode::Blend);
}

#[test]
fn static_overlay_blend_mode_1_is_blend_and_2_is_mask() {
    let mut blend1 = base_material("csgo_static_overlay");
    blend1.int_params.insert("F_BLEND_MODE".into(), 1);
    assert_eq!(resolve(&blend1).alpha_mode, AlphaMode::Blend);

    let mut blend2 = base_material("csgo_static_overlay");
    blend2.int_params.insert("F_BLEND_MODE".into(), 2);
    assert_eq!(resolve(&blend2).alpha_mode, AlphaMode::Mask);

    let mut blend0 = base_material("csgo_static_overlay");
    blend0.int_params.insert("F_BLEND_MODE".into(), 0);
    assert_eq!(resolve(&blend0).alpha_mode, AlphaMode::Opaque);
}

#[test]
fn static_overlay_blend_mode_3_is_mod2x_and_blend() {
    let mut mat = base_material("csgo_static_overlay");
    mat.int_params.insert("F_BLEND_MODE".into(), 3);
    let r = resolve(&mat);
    assert_eq!(r.alpha_mode, AlphaMode::Blend);
    assert!(r.mod2x);
}

#[test]
fn unlitgeneric_blend_mode_applies_same_as_static_overlay() {
    let mut mat = base_material("csgo_unlitgeneric");
    mat.int_params.insert("F_BLEND_MODE".into(), 1);
    assert_eq!(resolve(&mat).alpha_mode, AlphaMode::Blend);
}

#[test]
fn other_shaders_ignore_f_blend_mode() {
    let mut mat = base_material("csgo_vertexlitgeneric");
    mat.int_params.insert("F_BLEND_MODE".into(), 1);
    assert_eq!(resolve(&mat).alpha_mode, AlphaMode::Opaque);
}

#[test]
fn unlit_from_shader_or_red2() {
    assert!(resolve(&base_material("csgo_unlitgeneric")).unlit);
    assert!(resolve(&base_material("csgo_black_unlit")).unlit);
    assert!(resolve(&base_material("csgo_effects")).unlit);
    assert!(!resolve(&base_material("csgo_vertexlitgeneric")).unlit);

    let mut red2_unlit = base_material("csgo_vertexlitgeneric");
    red2_unlit.red2.unlit = Some(true);
    assert!(resolve(&red2_unlit).unlit);
}

#[test]
fn double_sided_from_render_backfaces() {
    let mut mat = base_material("csgo_vertexlitgeneric");
    mat.int_params.insert("F_RENDER_BACKFACES".into(), 1);
    assert!(resolve(&mat).double_sided);
}

#[test]
fn overlay_from_material_flag_or_shader() {
    let mut overlay_flag = base_material("csgo_lightmappedgeneric");
    overlay_flag.int_params.insert("F_OVERLAY".into(), 1);
    assert!(resolve(&overlay_flag).material_says_overlay);
    assert!(resolve(&base_material("csgo_static_overlay")).material_says_overlay);
    assert!(!resolve(&base_material("csgo_vertexlitgeneric")).material_says_overlay);
}

#[test]
fn base_color_texture_by_shader() {
    let mut env = base_material("csgo_environment");
    env.texture_params
        .insert("g_tColor1".into(), "materials/sky/color1.vtex".into());
    assert_eq!(
        resolve(&env).base_color_texture.as_deref(),
        Some("materials/sky/color1.vtex")
    );

    let mut generic = base_material("csgo_vertexlitgeneric");
    generic
        .texture_params
        .insert("g_tColor".into(), "materials/wall.vtex".into());
    assert_eq!(
        resolve(&generic).base_color_texture.as_deref(),
        Some("materials/wall.vtex")
    );
}

#[test]
fn base_color_falls_back_to_red2_diffuse_albedo() {
    let mut mat = base_material("csgo_lightmappedgeneric");
    mat.red2.diffuse_albedo_texture = Some("materials/legacy.vtex".to_string());
    assert_eq!(
        resolve(&mat).base_color_texture.as_deref(),
        Some("materials/legacy.vtex")
    );
}

#[test]
fn black_unlit_has_no_base_color_texture() {
    let mut mat = base_material("csgo_black_unlit");
    mat.texture_params
        .insert("g_tColor".into(), "materials/never_used.vtex".into());
    let r = resolve(&mat);
    assert!(r.constant_black);
    assert!(r.base_color_texture.is_none());
}

#[test]
fn normal_texture_by_shader_and_environment_blend_uses_g_t_normal1() {
    let mut lm = base_material("csgo_lightmappedgeneric");
    lm.texture_params
        .insert("g_tLayer1NormalRoughness".into(), "materials/n.vtex".into());
    assert_eq!(resolve(&lm).normal_texture.as_deref(), Some("materials/n.vtex"));

    let mut env = base_material("csgo_environment");
    env.texture_params
        .insert("g_tNormal1".into(), "materials/n1.vtex".into());
    assert_eq!(resolve(&env).normal_texture.as_deref(), Some("materials/n1.vtex"));

    let mut env_blend = base_material("csgo_environment_blend");
    env_blend
        .texture_params
        .insert("g_tNormal1".into(), "materials/n1blend.vtex".into());
    assert_eq!(
        resolve(&env_blend).normal_texture.as_deref(),
        Some("materials/n1blend.vtex")
    );

    // A default normal is a texture like any other.
    let mut default_n = base_material("csgo_vertexlitgeneric");
    default_n.texture_params.insert(
        "g_tNormal".into(),
        "materials/default/default_normal.vtex".into(),
    );
    assert_eq!(
        resolve(&default_n).normal_texture.as_deref(),
        Some("materials/default/default_normal.vtex")
    );
}

#[test]
fn layers_require_shader_and_exact_flag_value() {
    let mut yes = base_material("csgo_lightmappedgeneric");
    yes.int_params.insert("F_LAYERS".into(), 1);
    yes.int_params.insert("F_FANCY_BLENDING".into(), 1);
    yes.texture_params
        .insert("g_tLayer2Color".into(), "materials/l2.vtex".into());
    yes.texture_params
        .insert("g_tBlendModulation".into(), "materials/mod.vtex".into());
    let r = resolve(&yes).layers.expect("layered material");
    assert_eq!(r.layer2_color.as_deref(), Some("materials/l2.vtex"));
    assert_eq!(r.blend_modulation.as_deref(), Some("materials/mod.vtex"));

    // The flag's value counts, not that it is there.
    let mut zero = base_material("csgo_lightmappedgeneric");
    zero.int_params.insert("F_LAYERS".into(), 0);
    assert!(resolve(&zero).layers.is_none());

    let mut wrong_shader = base_material("csgo_vertexlitgeneric");
    wrong_shader.int_params.insert("F_LAYERS".into(), 1);
    assert!(resolve(&wrong_shader).layers.is_none());
}

#[test]
fn env_layer2_requires_the_blend_shader_and_at_least_one_texture() {
    let mut blend = base_material("csgo_environment_blend");
    blend
        .texture_params
        .insert("g_tColor2".into(), "materials/c2.vtex".into());
    blend
        .texture_params
        .insert("g_tNormal2".into(), "materials/n2.vtex".into());
    let r = resolve(&blend).env_layer2.expect("env layer2");
    assert_eq!(r.color2.as_deref(), Some("materials/c2.vtex"));
    assert_eq!(r.normal2.as_deref(), Some("materials/n2.vtex"));

    let mut plain = base_material("csgo_environment");
    plain
        .texture_params
        .insert("g_tColor2".into(), "materials/c2.vtex".into());
    assert!(resolve(&plain).env_layer2.is_none());

    let empty = base_material("csgo_environment_blend");
    assert!(resolve(&empty).env_layer2.is_none());
}

#[test]
fn env_height_params_resolve_with_shader_defaults_and_overrides() {
    let mut plain = base_material("csgo_environment");
    plain
        .texture_params
        .insert("g_tHeight1".into(), "materials/h1.vtex".into());
    let env1 = resolve(&plain).env1.expect("csgo_environment has env1");
    assert_eq!(env1.height_texture.as_deref(), Some("materials/h1.vtex"));
    assert_eq!(f32::from_bits(env1.roughness_contrast), 1.0);
    assert_eq!(f32::from_bits(env1.roughness_brightness), 1.0);
    assert_eq!(env1.ao_levels, bits3([0.0, 0.5, 1.0]));
    assert!(env1.metalness_enabled, "g_bMetalness1 defaults true");

    let mut blend = base_material("csgo_environment_blend");
    blend
        .texture_params
        .insert("g_tColor2".into(), "materials/c2.vtex".into());
    blend
        .texture_params
        .insert("g_tHeight2".into(), "materials/h2.vtex".into());
    blend
        .float_params
        .insert("g_fTextureRoughnessContrast2".into(), 2.0f32.to_bits());
    blend
        .float_params
        .insert("g_fTextureRoughnessBrightness2".into(), 0.64f32.to_bits());
    blend
        .float_params
        .insert("g_flHeightMapZeroPoint2".into(), 0.4f32.to_bits());
    blend.int_params.insert("g_bMetalness2".into(), 0);
    let layer2 = resolve(&blend).env_layer2.expect("env layer2");
    assert_eq!(
        layer2.height.height_texture.as_deref(),
        Some("materials/h2.vtex")
    );
    assert_eq!(f32::from_bits(layer2.height.roughness_contrast), 2.0);
    assert_eq!(f32::from_bits(layer2.height.roughness_brightness), 0.64);
    assert!(!layer2.height.metalness_enabled);
    assert_eq!(
        f32::from_bits(layer2.height_zero_point1),
        0.5,
        "layer 1 default unchanged"
    );
    assert_eq!(f32::from_bits(layer2.height_zero_point2), 0.4);
    assert_eq!(f32::from_bits(layer2.height_scale1), 1.0);
    assert_eq!(f32::from_bits(layer2.height_scale2), 1.0);
    assert_eq!(
        f32::from_bits(layer2.blend_softness2),
        0.01,
        "g_flBlendSoftness2 shader default"
    );
    assert!(
        layer2.unsupported.is_empty(),
        "no unsupported flags set on this material"
    );
}

#[test]
fn env_layer2_flags_paths_this_exporter_does_not_implement() {
    let mut mat = base_material("csgo_environment_blend");
    mat.texture_params
        .insert("g_tColor2".into(), "materials/c2.vtex".into());
    mat.int_params.insert("F_USE_NEW_BLENDING".into(), 1);
    mat.int_params.insert("F_ENABLE_LAYER_3".into(), 1);
    mat.int_params.insert("g_nUVSet2".into(), 0);
    let flags: Vec<&str> = resolve(&mat)
        .env_layer2
        .expect("env layer2")
        .unsupported
        .iter()
        .map(|(flag, _)| *flag)
        .collect();
    assert_eq!(flags, vec!["newBlending", "layer3", "biplanar"]);

    let mut clean = base_material("csgo_environment_blend");
    clean
        .texture_params
        .insert("g_tColor2".into(), "materials/c2.vtex".into());
    assert!(resolve(&clean)
        .env_layer2
        .expect("env layer2")
        .unsupported
        .is_empty());
}

#[test]
fn base_color_alpha_meaning_by_shader_and_alpha_mode() {
    let mut translucent = base_material("csgo_vertexlitgeneric");
    translucent.int_params.insert("F_TRANSLUCENT".into(), 1);
    assert_eq!(resolve(&translucent).base_color_alpha_meaning, "opacity");

    let mut alpha_test = base_material("csgo_vertexlitgeneric");
    alpha_test.int_params.insert("F_ALPHA_TEST".into(), 1);
    assert_eq!(resolve(&alpha_test).base_color_alpha_meaning, "opacity");

    assert_eq!(
        resolve(&base_material("csgo_environment")).base_color_alpha_meaning,
        "ao"
    );
    assert_eq!(
        resolve(&base_material("csgo_environment_blend")).base_color_alpha_meaning,
        "ao"
    );

    let mut metalness = base_material("csgo_vertexlitgeneric");
    metalness.int_params.insert("F_METALNESS_TEXTURE".into(), 1);
    assert_eq!(resolve(&metalness).base_color_alpha_meaning, "metalness");

    assert_eq!(
        resolve(&base_material("csgo_vertexlitgeneric")).base_color_alpha_meaning,
        "none"
    );
}

#[test]
fn self_illum_requires_the_flag_and_reads_its_formula_params() {
    let mut off = base_material("csgo_vertexlitgeneric");
    off.texture_params
        .insert("g_tSelfIllumMask".into(), "materials/glow.vtex".into());
    assert!(resolve(&off).self_illum.is_none(), "F_SELF_ILLUM unset");

    let mut on = base_material("csgo_vertexlitgeneric");
    on.int_params.insert("F_SELF_ILLUM".into(), 1);
    on.texture_params
        .insert("g_tSelfIllumMask".into(), "materials/glow.vtex".into());
    on.float_params
        .insert("g_flSelfIllumScale".into(), 2.0f32.to_bits());
    on.float_params
        .insert("g_flSelfIllumBrightness".into(), 1.0f32.to_bits());
    on.float_params
        .insert("g_flSelfIllumAlbedoFactor".into(), 0.5f32.to_bits());
    let half = 0.5f32.to_bits();
    on.vector_params.insert(
        "g_vSelfIllumTint".into(),
        Vector4 { x: half, y: half, z: half, w: 1.0f32.to_bits() },
    );
    let si = resolve(&on).self_illum.expect("F_SELF_ILLUM == 1");
    assert_eq!(si.texture, "materials/glow.vtex");
    assert_eq!(f32::from_bits(si.scale), 2.0);
    assert_eq!(f32::from_bits(si.brightness), 1.0);
    assert_eq!(f32::from_bits(si.albedo_factor), 0.5);
    let tint = si.tint.expect("tint");
    let expected_tint = srgb_to_linear([0.5, 0.5, 0.5]);
    let got_tint = srgb_to_linear([tint.x, tint.y, tint.z].map(f32::from_bits));
    for (got, want) in got_tint.iter().zip(expected_tint) {
        assert!((got - want).abs() < 1e-6, "{:?}", si.tint);
    }

    // One shader glows without the flag.
    let mut unlit_glow = base_material("csgo_unlitgeneric");
    unlit_glow
        .texture_params
        .insert("g_tSelfIllumMask".into(), "materials/glow.vtex".into());
    let si2 = resolve(&unlit_glow).self_illum.expect("csgo_unlitgeneric");
    assert_eq!(f32::from_bits(si2.scale), 1.0, "default scale");
    assert_eq!(f32::from_bits(si2.brightness), 0.0, "default brightness");
    assert_eq!(f32::from_bits(si2.albedo_factor), 0.0, "default albedo factor");
    assert_eq!(si2.tint, None, "default tint");

    let mut no_tex = base_material("csgo_vertexlitgeneric");
    no_tex.int_params.insert("F_SELF_ILLUM".into(), 1);
    assert!(resolve(&no_tex).self_illum.is_none());
}

#[test]
fn fancy_blending_zero_drops_the_modulation_texture() {
    let mut mat = base_material("csgo_lightmappedgeneric");
    mat.int_params.insert("F_LAYERS".into(), 1);
    mat.texture_params
        .insert("g_tBlendModulation".into(), "materials/mod.vtex".into());
    let layers = resolve(&mat).layers.expect("layered material");
    assert!(layers.blend_modulation.is_none());
}

#[test]
fn base_color_factor_applies_tint_amount_and_color_tint() {
    let mat = base_material("csgo_vertexlitgeneric");
    let mut resolved = resolve(&mat);
    resolved.color_tint = bits3([0.5, 0.5, 0.5]);
    resolved.model_tint_amount = 1.0f32.to_bits();
    let (factor, extras_tint) = factor_of(&resolved, [1.0, 1.0, 1.0, 1.0]);
    assert!(extras_tint.is_none());
    let expected = srgb_to_linear([0.5, 0.5, 0.5]);
    for i in 0..3 {
        assert!((factor[i] - expected[i]).abs() < 1e-5, "{factor:?}");
    }
    assert_eq!(factor[3], 1.0);
}

#[test]
fn base_color_factor_zero_tint_amount_ignores_instance_tint_rgb_but_keeps_alpha() {
    let mat = base_material("csgo_vertexlitgeneric");
    let mut resolved = resolve(&mat);
    resolved.model_tint_amount = 0.0f32.to_bits();
    let (factor, _) = factor_of(&resolved, [0.0, 0.0, 0.0, 0.5]);
    assert_eq!(factor, [1.0, 1.0, 1.0, 0.5]);
}

#[test]
fn base_color_factor_tint_mask_diverts_linear_tint_to_extras() {
    let mat = base_material("csgo_vertexlitgeneric");
    let mut resolved = resolve(&mat);
    resolved.tint_mask = true;
    let (factor, extras_tint) = factor_of(&resolved, [0.2, 0.4, 0.6, 0.75]);
    assert_eq!(factor, [1.0, 1.0, 1.0, 0.75]);
    let tint = extras_tint.expect("tint diverted to extras");
    let expected = srgb_to_linear([0.2, 0.4, 0.6]);
    for (got, want) in tint.iter().zip(expected) {
        assert!((got - want).abs() < 1e-5, "{tint:?}");
    }
}

#[test]
fn base_color_factor_keeps_to_the_unit_range() {
    let resolved = resolve(&base_material("csgo_vertexlitgeneric"));
    let (factor, _) = base_color_factor(
        &resolved,
        [2.0f32, -1.0, 0.25].map(f32::to_bits),
        3.0f32.to_bits(),
    );
    assert_eq!(factor.map(f32::from_bits), [1.0, 0.0, 0.25, 1.0]);
}

#[test]
fn is_tools_material_checks_value_not_presence() {
    let mut mat = base_material("generic");
    mat.int_attributes.insert("tools.toolsmaterial".into(), 1);
    assert!(mat.is_tools_material());
    mat.int_attributes.insert("tools.toolsmaterial".into(), 0);
    assert!(!mat.is_tools_material());
}

fn number(f: f32) -> Value {
    Value::Number(Number {
        signed: Some(f as i64),
        unsigned: u64::try_from(f as i64).ok(),
        single: f.to_bits(),
    })
}

fn object(entries: Vec<(&str, Value)>) -> Value {
    let mut o = Object::new();
    for (k, v) in entries {
        o.push(k, v);
    }
    Value::Object(o)
}

fn named(name: &str, key: &str, value: Value) -> Value {
    object(vec![("m_name", Value::String(name.to_string())), (key, value)])
}

#[test]
fn a_material_is_read_out_of_its_resource() {
    let root = object(vec![
        ("m_shaderName", Value::String("csgo_environment.vfx".to_string())),
        ("m_intParams", Value::Array(vec![named("F_ALPHA_TEST", "m_nValue", number(1.0))])),
        (
            "m_floatParams",
            Value::Array(vec![named("g_flAlphaTestReference", "m_flValue", number(0.25))]),
        ),
        (
            "m_textureParams",
            Value::Array(vec![named(
                "g_tColor1",
                "m_pValue",
                Value::String("materials/c.vtex".to_string()),
            )]),
        ),
        (
            "m_intAttributes",
            Value::Array(vec![named("tools.toolsmaterial", "m_nValue", number(1.0))]),
        ),
    ]);
    let resource = Resource { data: Ok(root), blocks: vec![] };
    let mat = decode_material(&resource, "materials/x.vmat_c").unwrap();
    assert_eq!(mat.shader, "csgo_environment");
    assert_eq!(mat.int_param("F_ALPHA_TEST"), 1);
    assert_eq!(mat.float("g_flAlphaTestReference").map(f32::from_bits), Some(0.25));
    assert_eq!(mat.texture("g_tColor1").as_deref(), Some("materials/c.vtex"));
    assert!(mat.is_tools_material());

    let broken = Resource { data: Err("no data".to_string()), blocks: vec![] };
    match decode_material(&broken, "materials/x.vmat_c") {
        Err(MaterialError::Resource { path, message }) => {
            assert_eq!(path, "materials/x.vmat_c");
            assert_eq!(message, "no data");
        }
        other => panic!("{other:?}"),
    }
}

#[test]
fn shader_names_lose_their_extension() {
    assert_eq!(strip_vfx("csgo_glass.vfx"), "csgo_glass");
    assert_eq!(strip_vfx("csgo_glass"), "csgo_glass");
}

#[test]
fn metalness_is_a_texture_or_a_number() {
    let mut textured = base_material("csgo_vertexlitgeneric");
    textured.int_params.insert("F_METALNESS_TEXTURE".into(), 1);
    textured
        .texture_params
        .insert("g_tMetalness".into(), "materials/m.vtex".into());
    match resolve(&textured).metalness {
        MetalnessSource::Texture(path) => assert_eq!(path, "materials/m.vtex"),
        other => panic!("{other:?}"),
    }
    let mut plain = base_material("csgo_vertexlitgeneric");
    plain
        .float_params
        .insert("g_flMetalness".into(), 0.5f32.to_bits());
    match resolve(&plain).metalness {
        MetalnessSource::Scalar(bits) => assert_eq!(f32::from_bits(bits), 0.5),
        other => panic!("{other:?}"),
    }
}

fn inputs() -> MaterialInputs {
    let mut identity = [0u32; 16];
    for i in [0, 5, 10, 15] {
        identity[i] = F32_ONE;
    }
    let m = ColorMatrices { color_adjust: identity, adjust: identity };
    MaterialInputs {
        base_color: [F32_ONE; 4],
        tint: None,
        facing_direction: [0; 3],
        facing_min_max: [0; 2],
        self_illum_tint: [F32_ONE; 3],
        matrices1: m,
        matrices2: m,
    }
}

#[test]
fn every_slot_asks_for_its_texture_once() {
    let mut mat = base_material("csgo_vertexlitgeneric");
    mat.texture_params
        .insert("g_tColor".into(), "materials/wall.vtex".into());
    mat.texture_params
        .insert("g_tNormal".into(), "materials/wall_n.vtex".into());
    let resolved = resolve(&mat);
    let mut asked = Vec::new();
    for i in 0..SLOT_COUNT {
        let slot = slot_at(i);
        if let Some(request) = texture_request(&resolved, slot, true) {
            asked.push((slot, request.path, request.role, request.color_space));
        }
    }
    assert_eq!(
        asked,
        vec![
            (
                Slot::BaseColor,
                "materials/wall.vtex".to_string(),
                TextureRole::Color,
                ColorSpace::Srgb
            ),
            (
                Slot::Normal,
                "materials/wall_n.vtex".to_string(),
                TextureRole::Normal,
                ColorSpace::Linear
            ),
        ]
    );
    assert_eq!(TextureRole::Color.max_side(2048), 2048);
    assert_eq!(TextureRole::Mask.max_side(2048), 512);
    assert_eq!(TextureRole::Normal.max_side(256), 256);
}

#[test]
fn a_written_material_names_its_path_and_its_textures() {
    let mut mat = base_material("csgo_vertexlitgeneric");
    mat.int_params.insert("F_ALPHA_TEST".into(), 1);
    mat.texture_params
        .insert("g_tColor".into(), "materials/wall.vtex".into());
    let resolved = resolve(&mat);
    let mut loads: Vec<Option<Loaded>> = vec![None; SLOT_COUNT];
    let base = (0..SLOT_COUNT).find(|&i| slot_at(i) == Slot::BaseColor).unwrap();
    loads[base] = Some(Loaded::Texture(7));
    let written = write_material("materials/wall.vmat", &resolved, &inputs(), &loads);
    assert!(matches!(get(&written, "name"), Some(Json::Str(s)) if s == "materials/wall.vmat"));
    assert!(matches!(get(&written, "alphaMode"), Some(Json::Str(s)) if s == "MASK"));
    let extras = write_extras(&resolved, &inputs(), &loads);
    assert!(matches!(get(&extras, "baseColorTexture"), Some(Json::UInt(7))), "{extras:?}");

    loads[base] = Some(Loaded::Constant { raw: [1, 2, 3, 4], codec: Codec::Plain });
    let extras = write_extras(&resolved, &inputs(), &loads);
    assert!(get(&extras, "baseColorTexture").is_none());
    assert!(get(&extras, "baseColorTextureConstant").is_some()
        || get(&extras, "baseColorConstant").is_some(), "{extras:?}");
}
