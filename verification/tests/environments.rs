//! The sky, the fog and the grading of a map.

use s2render::entity::{Entity, EntityLump, Property, ValueKind};
use s2render::environment::{
    build_vpost, cube_base_level, exposure_terms, fog_look, fog_source, own_fog_cube,
    pick_env_sky, pick_post_volume, post_path, shared_fog_cube, sky_cube, sky_face_file, FogLook,
    sky_fields, sky_material, sky_shape, sky_texture, take_environment_files, too_few_faces,
    CubeLevel, EnvironmentResult, SkyCube,
};
use s2render::json::{get, Json};
use s2render::kv::{Object, Resource, Value};
use s2render::material::RawMaterial;
use s2render::native_texture::{RawMip, VTexFormat};

fn bare(key: &str, kind: ValueKind) -> Property {
    Property {
        key: key.to_string(),
        kind,
        text: None,
        flag: None,
        number: None,
        single: None,
        vector: None,
    }
}

fn text(key: &str, s: &str) -> Property {
    Property { text: Some(s.to_string()), ..bare(key, ValueKind::Text) }
}

fn flag(key: &str, b: bool) -> Property {
    let f = if b { 1.0f32 } else { 0.0 };
    Property {
        flag: Some(b),
        number: Some(f64::from(f).to_bits()),
        single: Some(f.to_bits()),
        ..bare(key, ValueKind::Other)
    }
}

fn float(key: &str, f: f32) -> Property {
    Property {
        number: Some(f64::from(f).to_bits()),
        single: Some(f.to_bits()),
        ..bare(key, ValueKind::Float)
    }
}

fn entity(class: &str, mut more: Vec<Property>) -> Entity {
    more.insert(0, text("classname", class));
    Entity::new(more)
}

fn lumps(entities: Vec<Entity>) -> Vec<EntityLump> {
    vec![EntityLump { name: String::new(), child_lumps: vec![], entities }]
}

#[test]
fn the_last_sky_that_is_on_counts() {
    let sky = |name: &str, off: bool| {
        entity("env_sky", vec![text("targetname", name), flag("startdisabled", off)])
    };
    let picked = |v: Vec<Entity>| {
        let l = lumps(v);
        pick_env_sky(&l).and_then(|e| e.targetname().cloned())
    };
    assert_eq!(
        picked(vec![sky("a", false), sky("b", false), sky("c", true)]).as_deref(),
        Some("b")
    );
    assert_eq!(picked(vec![sky("a", true), sky("b", true)]).as_deref(), Some("a"));
    assert_eq!(picked(vec![entity("env_fog", vec![])]), None);
}

#[test]
fn a_sky_names_its_material_and_the_material_its_texture() {
    let e = entity("env_sky", vec![text("skyname", "materials/sky.vmat")]);
    assert_eq!(sky_material(&e).unwrap(), "materials/sky.vmat");
    assert!(sky_material(&entity("env_sky", vec![])).is_err());
    let mut m = RawMaterial::default();
    assert!(sky_texture("materials/sky.vmat", &m).is_err());
    m.texture_params.insert("g_tSkyTexture".into(), "materials/sky.vtex".into());
    assert_eq!(sky_texture("materials/sky.vmat", &m).unwrap(), "materials/sky.vtex");
    let fields = sky_fields(&e);
    assert_eq!(f32::from_bits(fields.brightness_scale), 1.0);
    let (_, _) = exposure_terms(&m);
}

fn cube() -> SkyCube {
    let level = |level: u32| CubeLevel {
        level,
        format: VTexFormat::Bc6H,
        format_name: "Bc6H".to_string(),
    };
    let mips = vec![
        RawMip { width: 1, height: 1, bytes: vec![1; 6] },
        RawMip { width: 2, height: 2, bytes: vec![2; 24] },
    ];
    sky_cube("sky.vtex_c", 2, 2, 2, 0, &vec![level(1), level(0)], &mips, None).unwrap()
}

#[test]
fn a_cube_holds_its_levels_one_behind_the_other() {
    let c = cube();
    assert_eq!(c.bytes.len(), 30);
    assert_eq!(c.format, "BC6H_UF16");
    assert_eq!(c.levels[1].0, 0);
    assert_eq!((c.levels[1].1.offset, c.levels[1].1.length), (6, 24));
    let level = CubeLevel {
        level: 0,
        format: VTexFormat::Rgba8888,
        format_name: "Rgba8888".to_string(),
    };
    let mips = vec![RawMip { width: 1, height: 1, bytes: vec![] }];
    let refused = sky_cube("sky.vtex_c", 1, 1, 1, 0, &vec![level], &mips, None);
    assert!(refused.unwrap_err().contains("Rgba8888"));
    let unread = sky_cube("s", 1, 1, 1, 0, &vec![], &vec![], Some("damaged".to_string()));
    assert_eq!(unread.unwrap_err(), "damaged");
}

#[test]
fn the_finest_level_that_is_written() {
    assert_eq!(cube_base_level(8, None), 0);
    assert_eq!(cube_base_level(8, Some(3)), 3);
    assert_eq!(cube_base_level(2, Some(3)), 1);
    assert_eq!(cube_base_level(0, Some(3)), 0);
}

#[test]
fn faces_and_their_files() {
    let files: Vec<String> = (0..6).map(sky_face_file).collect();
    assert_eq!(files[0], "render_sky_face_px.png");
    assert_eq!(files.iter().collect::<std::collections::HashSet<_>>().len(), 6);
    assert!(too_few_faces("sky", 5).is_some());
    assert!(too_few_faces("sky", 6).is_none());
}

#[test]
fn fog_takes_its_cube_from_a_sky_a_material_or_a_texture() {
    let sky = entity(
        "env_sky",
        vec![text("targetname", "sky1"), text("skyname", "materials/sky.vmat")],
    );
    let l = lumps(vec![sky]);
    let from_sky = entity(
        "env_cubemap_fog",
        vec![float("cubemapfogsource", 1.0), text("cubemapfogskyentity", "sky1")],
    );
    assert_eq!(fog_source(&l, &from_sky).unwrap().material.as_deref(), Some("materials/sky.vmat"));
    let lost = entity(
        "env_cubemap_fog",
        vec![float("cubemapfogsource", 1.0), text("cubemapfogskyentity", "sky2")],
    );
    assert_eq!(
        fog_source(&l, &lost).unwrap_err(),
        "env_cubemap_fog: cubemapfogskyentity 'sky2' not found, fog disabled"
    );
    let direct = entity(
        "env_cubemap_fog",
        vec![float("cubemapfogsource", 0.0), text("cubemapfogtexture", "fog.vtex")],
    );
    let source = fog_source(&l, &direct).unwrap();
    assert_eq!(source.direct_texture.as_deref(), Some("fog.vtex"));
    assert!(matches!(fog_look(&source), Ok(FogLook::Texture(t)) if t == "fog.vtex"));
    let source = fog_source(&l, &from_sky).unwrap();
    assert!(matches!(fog_look(&source), Ok(FogLook::Material(m)) if m == "materials/sky.vmat"));
    let source = fog_source(&l, &entity("env_cubemap_fog", vec![])).unwrap();
    assert_eq!(
        fog_look(&source).unwrap_err(),
        "env_cubemap_fog: no cubemap texture source resolved"
    );
}

#[test]
fn fog_shares_the_cube_of_the_sky_or_has_its_own() {
    let c = cube();
    let shape = sky_shape(Some(&c));
    let texture = "sky.vtex".to_string();
    assert!(shared_fog_cube(&None, &texture, &shape).is_none());
    assert!(shared_fog_cube(&Some("other.vtex".to_string()), &texture, &shape).is_none());
    let shared = shared_fog_cube(&Some(texture.clone()), &texture, &shape).unwrap();
    assert_eq!(shared.file, "render_sky_cube.bin");
    assert_eq!((shared.width, shared.height, shared.mips), (2, 2, 2));
    let own = own_fog_cube(&c);
    assert_eq!(own.file, "render_fog_cube.bin");
    assert_eq!(own.format, "BC6H_UF16");
}

#[test]
fn the_master_volume_grades_the_map() {
    let volume = |name: &str, master: bool| {
        entity("post_processing_volume", vec![text("targetname", name), flag("master", master)])
    };
    let l = lumps(vec![volume("a", false), volume("b", true)]);
    assert_eq!(pick_post_volume(&l).unwrap().targetname().map(String::as_str), Some("b"));
    let l = lumps(vec![volume("a", false), volume("b", false)]);
    assert_eq!(pick_post_volume(&l).unwrap().targetname().map(String::as_str), Some("a"));
    assert!(post_path(&volume("a", false)).is_err());
}

#[test]
fn a_grading_holds_its_colours() {
    let mut root = Object::new();
    root.push("m_bHasColorCorrection", Value::Bool(true));
    root.push("m_colorCorrectionVolumeData", Value::Blob(vec![1, 2, 3, 4]));
    let resource = Resource { data: Ok(Value::Object(root)), blocks: vec![] };
    let (json, lut) = build_vpost("postprocess/x.vpost", Ok(&resource)).unwrap();
    assert_eq!(lut, Some(vec![1, 2, 3, 4]));
    assert!(
        matches!(get(&json, "colorCorrectionVolumeFile"), Some(Json::Str(s)) if s == "render_lut.bin")
    );
    let failed = build_vpost("postprocess/x.vpost", Err("not found".to_string()));
    assert_eq!(failed.unwrap_err(), "postprocess/x.vpost_c: not found");
}

#[test]
fn a_missing_sky_leaves_the_rest_alone() {
    let mut env = EnvironmentResult::default();
    let zero = [[0u32; 3]; 3];
    env.take_sky(Err("sky: damaged".to_string()), Ok(vec![]), &zero, &[0; 3], 0);
    assert!(env.sky_json.is_none());
    assert_eq!(env.missing, vec!["sky: damaged"]);
    let fog = entity("env_cubemap_fog", vec![]);
    env.take_fog(&fog, Ok((own_fog_cube(&cube()), Some(vec![7]))), &zero, 0, 0);
    assert!(env.fog_json.is_some());
    assert_eq!(env.fog_cube_bytes, Some(vec![7]));
    let files = take_environment_files(
        env.sky_cube_bytes,
        env.sky_fallback_files,
        env.fog_cube_bytes,
        env.lut_bytes,
    );
    assert_eq!(files, vec![("render_fog_cube.bin".to_string(), vec![7])]);
}
