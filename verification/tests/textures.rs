//! Textures: the catalog, the lightmaps and the archives they come from.

use s2render::json::{get, Json};
use s2render::lightmaps::{
    compressed_format_name, fallback_requests, half_side, irradiance_fallback, lightmap_requests,
    load_raw, next_halving, pick_irradiance_level, shadow_fallback,
};
use s2render::native_texture::{
    codec_from_flags, lay_out, sha12, Codec, CodecFlags, ColorSpace, Loaded, LoadStep,
    NativeFormat, NativeTextureError, RawMip, TextureCatalog, TextureHeader, VTexFormat,
};
use s2render::source::{
    compiled_path, failed, not_found, pick_archive, ArchiveEntry, Listing, SourceError,
};
use s2render::texture::{
    encoded_texture, pixels_to_encode, EncodedFormat, TextureBudget, TextureError,
};
use sha2::Digest;

fn minimal_dxt1_header() -> TextureHeader {
    TextureHeader {
        width: 8,
        height: 8,
        depth: 1,
        num_mip_levels: 1,
        is_cube: false,
        is_volume: false,
        format: VTexFormat::Dxt1,
        format_name: "Dxt1".to_string(),
    }
}

/// Loads the one level of a small texture.
fn load(catalog: &mut TextureCatalog, path: &str, fill: u8, space: ColorSpace) -> Loaded {
    match catalog.plan(path, &minimal_dxt1_header(), 0, space).unwrap() {
        LoadStep::Known(loaded) => loaded,
        LoadStep::Levels { first, last, format } => {
            assert_eq!((first, last), (0, 0));
            let mips = vec![RawMip { width: 8, height: 8, bytes: vec![fill; 32] }];
            catalog.register(path, 0, space, format, Codec::Plain, &mips)
        }
        LoadStep::Pixel => panic!("not a constant"),
    }
}

fn text_of<'a>(j: &'a Json, key: &str) -> &'a str {
    match get(j, key) {
        Some(Json::Str(s)) => s,
        other => panic!("{key}: {other:?}"),
    }
}

#[test]
fn same_texture_two_color_spaces_dedups_the_file_not_the_color_space() {
    let mut catalog = TextureCatalog::default();
    let path = "materials/dev/reflectivity.vtex_c";
    let srgb = load(&mut catalog, path, 0x42, ColorSpace::Srgb);
    let linear = load(&mut catalog, path, 0x42, ColorSpace::Linear);

    let Loaded::Texture(srgb_idx) = srgb else {
        panic!("expected a real texture");
    };
    let Loaded::Texture(linear_idx) = linear else {
        panic!("expected a real texture");
    };
    assert_ne!(
        srgb_idx, linear_idx,
        "must be two distinct textures[] entries"
    );

    let textures = catalog.textures_json();
    assert_eq!(text_of(&textures[srgb_idx as usize], "colorSpace"), "srgb");
    assert_eq!(text_of(&textures[linear_idx as usize], "colorSpace"), "linear");
    assert_eq!(
        text_of(&textures[srgb_idx as usize], "file"),
        text_of(&textures[linear_idx as usize], "file")
    );
    assert_eq!(
        catalog.into_files().len(),
        1,
        "the blob is written only once"
    );
}

#[test]
fn same_texture_same_color_space_is_not_duplicated() {
    let mut catalog = TextureCatalog::default();
    let path = "materials/dev/reflectivity.vtex_c";
    let a = load(&mut catalog, path, 0x7f, ColorSpace::Linear);
    let b = load(&mut catalog, path, 0x7f, ColorSpace::Linear);
    let (Loaded::Texture(a_idx), Loaded::Texture(b_idx)) = (a, b) else {
        panic!("expected real textures");
    };
    assert_eq!(a_idx, b_idx);
    assert_eq!(catalog.count(), 1);
}

#[test]
fn textures_with_the_same_content_share_a_file_by_its_digest() {
    let mut catalog = TextureCatalog::default();
    let a = load(&mut catalog, "a.vtex_c", 3, ColorSpace::Srgb);
    let b = load(&mut catalog, "b.vtex_c", 3, ColorSpace::Srgb);
    let c = load(&mut catalog, "c.vtex_c", 4, ColorSpace::Srgb);
    assert!(matches!((a, b, c), (Loaded::Texture(0), Loaded::Texture(0), Loaded::Texture(1))));
    assert_eq!(catalog.dedup_hits(), 1);
    assert_eq!(catalog.dedup_bytes_saved(), 32);
    assert_eq!(catalog.total_bytes(), 64);
    let digest: [u8; 32] = sha2::Sha256::digest([3u8; 32]).into();
    let files = catalog.into_files();
    assert_eq!(files.len(), 2);
    assert_eq!(files[0].0, format!("render_tex/{}.bin", sha12(&digest)));
    assert_eq!(files[0].1, vec![3u8; 32]);
}

#[test]
fn a_small_texture_of_one_level_is_a_constant() {
    let mut catalog = TextureCatalog::default();
    let header = TextureHeader { width: 4, height: 4, ..minimal_dxt1_header() };
    let step = catalog.plan("c.vtex_c", &header, 0, ColorSpace::Linear).unwrap();
    assert!(matches!(step, LoadStep::Pixel));
    let kept = catalog.keep_constant("c.vtex_c", [1, 2, 3, 4], Codec::HemiOct);
    assert!(matches!(kept, Loaded::Constant { raw: [1, 2, 3, 4], codec: Codec::HemiOct }));
    let again = catalog.plan("c.vtex_c", &header, 0, ColorSpace::Srgb).unwrap();
    assert!(matches!(again, LoadStep::Known(Loaded::Constant { raw: [1, 2, 3, 4], .. })));
    assert_eq!(catalog.count(), 0);
}

#[test]
fn a_format_that_no_reader_takes_is_an_error() {
    let catalog = TextureCatalog::default();
    let header = TextureHeader {
        format: VTexFormat::Dxt5,
        format_name: "Dxt5".to_string(),
        ..minimal_dxt1_header()
    };
    match catalog.plan("d.vtex_c", &header, 0, ColorSpace::Srgb) {
        Err(e) => {
            assert!(e.message().contains("d.vtex_c") && e.message().contains("Dxt5"));
            assert!(matches!(e, NativeTextureError::UnsupportedFormat { .. }));
        }
        Ok(_) => panic!("expected an error"),
    }
}

#[test]
fn native_format_maps_the_four_used_formats_and_rejects_others() {
    assert_eq!(NativeFormat::from_vtex(VTexFormat::Bc7), Some(NativeFormat::Bc7));
    assert_eq!(NativeFormat::from_vtex(VTexFormat::Dxt1), Some(NativeFormat::Bc1));
    assert_eq!(NativeFormat::from_vtex(VTexFormat::Ati1N), Some(NativeFormat::Bc4));
    assert_eq!(NativeFormat::from_vtex(VTexFormat::Rgba8888), Some(NativeFormat::Rgba8));
    assert_eq!(NativeFormat::from_vtex(VTexFormat::Bc6H), None);
    assert_eq!(NativeFormat::from_vtex(VTexFormat::Dxt5), None);
}

#[test]
fn compressed_format_name_maps_known_formats_and_rejects_unknown() {
    assert_eq!(compressed_format_name(VTexFormat::Bc6H), Some("BC6H_UF16"));
    assert_eq!(compressed_format_name(VTexFormat::Ati1N), Some("BC4"));
    assert_eq!(compressed_format_name(VTexFormat::Ati2N), Some("BC5"));
    assert_eq!(compressed_format_name(VTexFormat::Bc7), Some("BC7"));
    assert_eq!(compressed_format_name(VTexFormat::Dxt1), Some("BC1"));
    assert_eq!(compressed_format_name(VTexFormat::Dxt5), Some("BC3"));
    assert_eq!(compressed_format_name(VTexFormat::Rgba8888), None);
}

#[test]
fn levels_stand_one_behind_the_other() {
    let mips = vec![
        RawMip { width: 4, height: 4, bytes: vec![1; 16] },
        RawMip { width: 2, height: 2, bytes: vec![2; 8] },
    ];
    let (blob, levels) = lay_out(&mips);
    assert_eq!(blob.len(), 24);
    assert_eq!((levels[0].offset, levels[0].length), (0, 16));
    assert_eq!((levels[1].offset, levels[1].length), (16, 8));
    let second = &blob[levels[1].offset as usize..][..levels[1].length as usize];
    assert_eq!(second, &[2; 8]);
}

#[test]
fn codecs_by_their_flags() {
    let none = CodecFlags {
        hemi_oct_rb: false,
        dxt5nm: false,
        ycocg: false,
        normalize_normals: false,
    };
    assert_eq!(codec_from_flags(none).as_str(), "none");
    assert_eq!(codec_from_flags(CodecFlags { ycocg: true, ..none }), Codec::YCoCg);
    assert_eq!(
        codec_from_flags(CodecFlags { hemi_oct_rb: true, ycocg: true, ..none }),
        Codec::HemiOct
    );
}

fn maps() -> Vec<String> {
    vec![
        "maps/a/lightmaps/irradiance.vtex".to_string(),
        "maps/a/lightmaps/Direct_Light_Shadows.vtex".to_string(),
    ]
}

#[test]
fn the_lightmaps_that_a_map_has_are_asked_for() {
    let requests = lightmap_requests(&maps());
    let names: Vec<&str> = requests.iter().map(|r| r.name).collect();
    assert!(names.contains(&"irradiance"), "{names:?}");
    assert!(requests.iter().all(|r| r.path.starts_with("maps/a/lightmaps/")));
    let all = maps();
    let (irradiance, shadows) = fallback_requests(&all);
    assert_eq!(irradiance.map(String::as_str), Some("maps/a/lightmaps/irradiance.vtex"));
    assert_eq!(
        shadows.map(String::as_str),
        Some("maps/a/lightmaps/Direct_Light_Shadows.vtex")
    );
    assert!(lightmap_requests(&vec![]).is_empty());
}

#[test]
fn a_lightmap_is_written_as_it_is() {
    let raw = RawMip { width: 16, height: 8, bytes: vec![5; 64] };
    let file = load_raw("x.vtex_c", "irradiance", 1, raw, VTexFormat::Bc6H, "Bc6H").unwrap();
    assert_eq!(file.file_name, "render_lm_irradiance_1.bin");
    assert_eq!(file.format, "BC6H_UF16");
    assert_eq!((file.width, file.height, file.mip_level), (16, 8, 1));
    assert_eq!(file.byte_length, 64);
    let digest: [u8; 32] = sha2::Sha256::digest([5u8; 64]).into();
    let hex: String = digest.iter().map(|b| format!("{b:02x}")).collect();
    assert_eq!(file.sha256, hex);

    let raw = RawMip { width: 16, height: 8, bytes: vec![5; 64] };
    let refused = load_raw("x.vtex_c", "irradiance", 1, raw, VTexFormat::Rgba8888, "Rgba8888");
    assert!(refused.unwrap_err().contains("Rgba8888"));
}

#[test]
fn halving_goes_on_to_the_limit() {
    assert_eq!(half_side(1), 1);
    assert_eq!(half_side(7), 4);
    assert_eq!(next_halving(4096, 1024, 2048), Some((2048, 512)));
    assert_eq!(next_halving(2048, 512, 2048), None);
    assert_eq!(pick_irradiance_level(8192, 10, true), 0);
}

#[test]
fn fallbacks_say_how_they_are_read() {
    let light = irradiance_fallback(vec![1, 2], 4, 2);
    assert_eq!(light.file_name, "render_lm_irradiance_fallback.png");
    assert_eq!(light.byte_length, 2);
    assert_eq!(light.rgbm_range.map(f32::from_bits), Some(8.0));
    let shadow = shadow_fallback(vec![1, 2, 3], 4, 2);
    assert_eq!(shadow.byte_length, 3);
    assert!(shadow.rgbm_range.is_none());
}

#[test]
fn paths_and_archives() {
    assert_eq!(compiled_path("a/b.vmat"), "a/b.vmat_c");
    assert_eq!(compiled_path("a/b.vmat_c"), "a/b.vmat_c");
    assert_eq!(pick_archive(&vec![false, true, true]), Some(1));
    assert_eq!(pick_archive(&vec![false, false]), None);
    assert_eq!(not_found("a.vmat_c"), "a.vmat_c: not found");
    assert_eq!(failed("a", "failed to decode mesh", "why"), "a: failed to decode mesh: why");
    let entry = |path: &str, extension: &str| ArchiveEntry {
        path: path.to_string(),
        extension: extension.to_string(),
    };
    let listing = Listing {
        archives: vec![
            vec![entry("maps/a/x.vents_c", "vents_c"), entry("maps/a/world.vwrld_c", "vwrld_c")],
            vec![entry("maps/b/world.vwrld_c", "vwrld_c")],
        ],
    };
    assert_eq!(listing.find_ending_with("world.vwrld_c"), Some((0, 1)));
    assert_eq!(listing.find_ending_with("nothing"), None);
    assert_eq!(listing.entries_with_extension("vents_c"), vec!["maps/a/x.vents_c"]);
    let e = SourceError::NotFound { path: "x".to_string() };
    assert!(e.message().contains('x'));
    let e = SourceError::Parse { path: "x".to_string(), message: "y".to_string() };
    assert_eq!(e.message(), "failed to parse x as a resource: y");
}

#[test]
fn encoded_textures() {
    assert_eq!(pixels_to_encode(vec![1, 2, 3, 4], true), vec![1, 2, 3, 255]);
    assert_eq!(pixels_to_encode(vec![1, 2, 3, 4], false), vec![1, 2, 3, 4]);
    let t = encoded_texture(vec![1], EncodedFormat::Png, 2, 3);
    assert_eq!((t.mime_type, t.width, t.height), ("image/png", 2, 3));
    assert_eq!(encoded_texture(vec![1], EncodedFormat::Jpeg, 2, 3).mime_type, "image/jpeg");
    assert!(TextureBudget::default().max_side > 0);
    let e = TextureError::Missing { path: "t".to_string() };
    assert!(e.message().contains('t'));
}

#[test]
fn a_texture_without_levels_matters_only_where_they_are_written() {
    let catalog = TextureCatalog::default();
    let unknown = TextureHeader {
        format: VTexFormat::Dxt5,
        format_name: "Dxt5".to_string(),
        num_mip_levels: 0,
        ..minimal_dxt1_header()
    };
    assert!(catalog.can_plan("d.vtex_c", &unknown, 0, ColorSpace::Srgb));
    assert!(matches!(
        catalog.plan("d.vtex_c", &unknown, 0, ColorSpace::Srgb),
        Err(NativeTextureError::UnsupportedFormat { .. })
    ));
    let known = TextureHeader { num_mip_levels: 0, ..minimal_dxt1_header() };
    assert!(!catalog.can_plan("d.vtex_c", &known, 0, ColorSpace::Srgb));
    assert!(catalog.can_plan("d.vtex_c", &minimal_dxt1_header(), 0, ColorSpace::Srgb));
}
