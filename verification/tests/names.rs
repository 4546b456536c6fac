use s2render::lightmaps::find_by_basename;
use s2render::native_texture::sha12;
use s2render::skybox::{is_dropped_extra_file, map_key_from_target, rename_lightmap_file};

#[test]
fn find_by_basename_matches_case_insensitively_and_ignores_directory() {
    let list = vec![
        "maps/de_mirage/lightmaps/irradiance.vtex".to_string(),
        "maps/de_mirage/lightmaps/Direct_Light_Shadows.vtex".to_string(),
    ];
    assert_eq!(
        find_by_basename(&list, "irradiance").map(String::as_str),
        Some("maps/de_mirage/lightmaps/irradiance.vtex")
    );
    assert_eq!(
        find_by_basename(&list, "direct_light_shadows").map(String::as_str),
        Some("maps/de_mirage/lightmaps/Direct_Light_Shadows.vtex")
    );
    assert_eq!(find_by_basename(&list, "debug_chart_color"), None);
}

#[test]
fn sha12_is_twelve_lowercase_hex_chars() {
    let hash = [
        0xABu8, 0xCD, 0xEF, 0x01, 0x23, 0x45, 0x67, 0x89, 0, 0, 0, 0, 0, 0, 0, 0, 0, 0, 0, 0, 0, 0,
        0, 0, 0, 0, 0, 0, 0, 0, 0, 0,
    ];
    let s = sha12(&hash);
    assert_eq!(s.len(), 12);
    assert_eq!(s, "abcdef012345");
    assert!(s.chars().all(|c| c.is_ascii_hexdigit() && !c.is_ascii_uppercase()));
}

#[test]
fn map_key_from_target_strips_maps_prefix_and_vmap_suffix() {
    assert_eq!(
        map_key_from_target("maps/prefabs/de_mirage/3dskybox_mirage_legacy.vmap"),
        "prefabs/de_mirage/3dskybox_mirage_legacy"
    );
    assert_eq!(
        map_key_from_target("prefabs/de_dust2_skybox.vmap"),
        "prefabs/de_dust2_skybox"
    );
    assert_eq!(map_key_from_target("de_ancient_skybox"), "de_ancient_skybox");
}

#[test]
fn map_key_from_target_goes_by_any_case() {
    assert_eq!(map_key_from_target("MAPS/De_Nuke.VMAP"), "De_Nuke");
    assert_eq!(map_key_from_target("map/de_nuke.vmapx"), "map/de_nuke.vmapx");
    assert_eq!(map_key_from_target(""), "");
}

#[test]
fn is_dropped_extra_file_matches_only_2d_sky_fog_and_lut() {
    assert!(is_dropped_extra_file("render_sky_cube.bin"));
    assert!(is_dropped_extra_file("render_fog_cube.bin"));
    assert!(is_dropped_extra_file("render_lut.bin"));
    assert!(is_dropped_extra_file("render_sky_face_posx.png"));
    assert!(!is_dropped_extra_file("render_lm_irradiance_1.bin"));
    assert!(!is_dropped_extra_file("render_tex/abc123.bin"));
}

#[test]
fn rename_lightmap_file_only_touches_render_lm_prefix() {
    assert_eq!(
        rename_lightmap_file("render_lm_irradiance_1.bin"),
        "render_sky_lm_irradiance_1.bin"
    );
    assert_eq!(
        rename_lightmap_file("render_lm_irradiance_fallback.png"),
        "render_sky_lm_irradiance_fallback.png"
    );
    assert_eq!(rename_lightmap_file("render_tex/abc.bin"), "render_tex/abc.bin");
}
