//! The skybox map that is folded into the report of the outer one.

use s2render::entity::{Entity, Property, ValueKind};
use s2render::export::ExportResult;
use s2render::json::{get, Json, Members};
use s2render::skybox::{
    merge_skybox_export, parse_sky_camera, parse_skybox_reference, SkyboxMergeError,
    SkyboxReferenceInfo,
};

fn text(key: &str, s: &str) -> Property {
    Property {
        key: key.to_string(),
        kind: ValueKind::Text,
        text: Some(s.to_string()),
        flag: None,
        number: None,
        single: None,
        vector: None,
    }
}

fn reference() -> SkyboxReferenceInfo {
    SkyboxReferenceInfo {
        target_map: "maps/prefabs/de_mirage/3dskybox_mirage_legacy.vmap".to_string(),
        origin: [0.0f32, 0.0, 0.0].map(f32::to_bits),
        angles: [0.0f32, 0.0, 0.0].map(f32::to_bits),
        scales: [1.0f32, 1.0, 1.0].map(f32::to_bits),
    }
}

#[test]
fn merge_fails_without_a_sky_camera_in_the_nested_report() {
    let mut report = Members::new();
    report.put_null("skyCamera");
    let sky_result = ExportResult {
        glb: Vec::new(),
        report: report.object(),
        extra_files: Vec::new(),
    };
    let merged = merge_skybox_export(&reference(), sky_result);
    assert!(matches!(merged, Err(SkyboxMergeError::NoSkyCamera)));
    assert!(!SkyboxMergeError::NoSkyCamera.message().is_empty());
}

#[test]
fn a_merged_skybox_keeps_its_own_files_under_names_of_their_own() {
    let mut camera = Members::new();
    camera.put_single("scale", 16.0f32.to_bits());
    camera.put_singles("origin", &[1.0f32, 2.0, 3.0].map(f32::to_bits));
    let mut map = Members::new();
    map.put_text("file", "render_lm_irradiance_1.bin");
    let mut lighting = Members::new();
    lighting.put_array("lightmaps", vec![map.object()]);
    let mut report = Members::new();
    report.put_object("skyCamera", camera);
    report.put_object("lighting", lighting);
    report.put_text("sky", "a sky");
    let sky_result = ExportResult {
        glb: vec![9],
        report: report.object(),
        extra_files: vec![
            ("render_sky_cube.bin".to_string(), vec![1]),
            ("render_lm_irradiance_1.bin".to_string(), vec![2]),
            ("render_tex/abc.bin".to_string(), vec![3]),
        ],
    };
    let merged = merge_skybox_export(&reference(), sky_result).unwrap();
    assert_eq!(merged.glb_file_name, "render_sky.glb");
    assert_eq!(merged.glb, vec![9]);
    assert_eq!(
        merged.extra_files,
        vec![
            ("render_sky_lm_irradiance_1.bin".to_string(), vec![2]),
            ("render_tex/abc.bin".to_string(), vec![3]),
        ]
    );
    let report = get(&merged.json, "report").unwrap();
    assert!(matches!(get(report, "sky"), Some(Json::Null)), "{report:?}");
    let lighting = get(report, "lighting").unwrap();
    let Some(Json::Array(maps)) = get(lighting, "lightmaps") else {
        panic!("{lighting:?}");
    };
    assert!(
        matches!(get(&maps[0], "file"), Some(Json::Str(s)) if s == "render_sky_lm_irradiance_1.bin"),
        "{maps:?}"
    );
}

#[test]
fn references_and_cameras_go_by_their_class() {
    let mut e = Entity::new(vec![
        text("classname", "skybox_reference"),
        text("targetmapname", "maps/sky.vmap"),
    ]);
    e.origin = [1.0f32, 2.0, 3.0].map(f32::to_bits);
    let r = parse_skybox_reference(&e).unwrap();
    assert_eq!(r.target_map, "maps/sky.vmap");
    assert_eq!(r.origin.map(f32::from_bits), [1.0, 2.0, 3.0]);
    assert!(parse_sky_camera(&e).is_none());
    assert!(parse_skybox_reference(&Entity::new(vec![text("classname", "skybox_reference")])).is_none());
    assert!(parse_sky_camera(&Entity::new(vec![text("classname", "sky_camera")])).is_none());
    let scale = Property { single: Some(16.0f32.to_bits()), ..text("scale", "16") };
    let camera = parse_sky_camera(&Entity::new(vec![text("classname", "Sky_Camera"), scale])).unwrap();
    assert_eq!(f32::from_bits(camera.scale), 16.0);
}
