//! What the report says of a whole map: its sun, its sky, its fog, its grading, its lightmaps and what was
//! counted.

use crate::entity::Entity;
use crate::environment::{EnvironmentView, FogCube, SkyCube};
use crate::gltf_material::TextureRole;
use crate::json::JsonView;
use crate::kv::Value;
use crate::native_texture::LevelInfo;
use crate::report::{Counts, ReportView};
use crate::skybox::{SkyCameraInfo, SkyboxReferenceInfo};
use crate::summary::{Lighting, Sizes, Sun, Surroundings};
use vstd::prelude::*;

verus! {

/// The single under a key of an entity, else another.
pub open spec fn number(e: Entity, key: Seq<char>, default: u32) -> u32 {
    match crate::entity::single_of(e, key) {
        Some(f) => f,
        None => default,
    }
}

/// The flag under a key of an entity, else another.
pub open spec fn flag(e: Entity, key: Seq<char>, default: bool) -> bool {
    match crate::entity::flag_of(e, key) {
        Some(b) => b,
        None => default,
    }
}

/// The report says of the sun where it shines to and where it stands, its colour as it is given and as
/// light, how bright it is, the colour of the sky around it and which channel of the shadows it has.
pub proof fn the_sun_is_said(s: Sun, shadow_channel: Option<i64>)
    ensures
        ({
            let j = crate::summary::sun_json(s, shadow_channel);
            &&& crate::laws::documents::says(
                j,
                "direction"@,
                crate::laws::surfaces::singles(s.direction@),
            )
            &&& crate::laws::documents::says(j, "toSun"@, crate::laws::surfaces::singles(s.to_sun@))
            &&& crate::laws::documents::says(j, "color"@, crate::laws::surfaces::singles(s.color@))
            &&& crate::laws::documents::says(j, "colorSpace"@, JsonView::Str("srgb"@))
            &&& crate::laws::documents::says(
                j,
                "colorLinear"@,
                crate::laws::surfaces::singles(s.color_linear@),
            )
            &&& crate::laws::documents::says(j, "brightness"@, JsonView::Single(s.brightness))
            &&& crate::laws::documents::says(
                j,
                "brightnessScale"@,
                JsonView::Single(s.brightness_scale),
            )
            &&& crate::laws::documents::says(
                j,
                "skycolor"@,
                crate::laws::surfaces::singles(s.skycolor@),
            )
            &&& crate::laws::documents::says(j, "skyintensity"@, JsonView::Single(s.skyintensity))
            &&& crate::laws::documents::says(j, "renderSpecular"@, JsonView::Bool(true))
            &&& crate::laws::documents::says(j, "bakedShadowChannel"@, match shadow_channel {
                Some(n) => JsonView::Int(n),
                None => JsonView::Null,
            })
            &&& crate::laws::documents::size(j) == 14
        }),
{
    let m = crate::summary::sun_json(s, shadow_channel)->Object_0;
    crate::laws::documents::lemma_says(m, 0);
    crate::laws::surfaces::lemma_singles(s.direction@);
    crate::laws::documents::lemma_says(m, 2);
    crate::laws::surfaces::lemma_singles(s.to_sun@);
    crate::laws::documents::lemma_says(m, 3);
    crate::laws::surfaces::lemma_singles(s.color@);
    crate::laws::documents::lemma_says(m, 4);
    crate::laws::documents::lemma_says(m, 5);
    crate::laws::surfaces::lemma_singles(s.color_linear@);
    crate::laws::documents::lemma_says(m, 6);
    crate::laws::documents::lemma_says(m, 7);
    crate::laws::documents::lemma_says(m, 8);
    crate::laws::surfaces::lemma_singles(s.skycolor@);
    crate::laws::documents::lemma_says(m, 9);
    crate::laws::documents::lemma_says(m, 10);
    crate::laws::documents::lemma_says(m, 12);
}

/// The report says each size and each count under its name.
#[verifier::spinoff_prover]
#[verifier::rlimit(50)]
pub proof fn sizes_and_counts_are_said(s: Sizes, c: Counts)
    ensures
        ({
            let j = crate::summary::counts_json(s, c);
            &&& crate::laws::documents::counts(j, "nodes"@, s.nodes as int)
            &&& crate::laws::documents::counts(j, "meshes"@, s.meshes as int)
            &&& crate::laws::documents::counts(j, "triangles"@, c.triangles as int)
            &&& crate::laws::documents::counts(j, "materials"@, s.materials as int)
            &&& crate::laws::documents::counts(j, "textures"@, s.textures as int)
            &&& crate::laws::documents::counts(j, "geometryBytes"@, s.geometry_bytes as int)
            &&& crate::laws::documents::counts(j, "textureBytes"@, s.texture_bytes as int)
            &&& crate::laws::documents::counts(
                j,
                "sceneObjectsTotal"@,
                c.scene_objects_total as int,
            )
            &&& crate::laws::documents::counts(
                j,
                "sceneObjectsPlaced"@,
                c.scene_objects_placed as int,
            )
            &&& crate::laws::documents::counts(j, "aggregatesTotal"@, c.aggregates_total as int)
            &&& crate::laws::documents::counts(
                j,
                "aggregatesFallback"@,
                c.aggregates_fallback as int,
            )
            &&& crate::laws::documents::counts(j, "fragmentsTotal"@, c.fragments_total as int)
            &&& crate::laws::documents::counts(j, "fragmentsPlaced"@, c.fragments_placed as int)
            &&& crate::laws::documents::counts(
                j,
                "lightmapDrawCalls"@,
                c.lightmap_draw_calls as int,
            )
            &&& crate::laws::documents::counts(j, "lightmapTriangles"@, c.lightmap_triangles as int)
            &&& crate::laws::documents::counts(j, "probeDrawCalls"@, c.probe_draw_calls as int)
            &&& crate::laws::documents::counts(j, "probeTriangles"@, c.probe_triangles as int)
            &&& crate::laws::documents::counts(j, "unlitDrawCalls"@, c.unlit_draw_calls as int)
            &&& crate::laws::documents::counts(j, "unlitTriangles"@, c.unlit_triangles as int)
            &&& crate::laws::documents::counts(
                j,
                "probeSampleFailures"@,
                c.probe_sample_failures as int,
            )
            &&& crate::laws::documents::counts(j, "probeVolumesLoaded"@, s.probe_volumes as int)
            &&& crate::laws::documents::counts(
                j,
                "probeVolumesSkipped"@,
                c.probe_volumes_skipped as int,
            )
            &&& crate::laws::documents::size(j) == 22
        }),
{
    let m = crate::summary::counts_json(s, c)->Object_0;
    crate::laws::documents::lemma_says(m, 0);
    crate::laws::documents::lemma_says(m, 1);
    crate::laws::documents::lemma_says(m, 2);
    crate::laws::documents::lemma_says(m, 3);
    crate::laws::documents::lemma_says(m, 4);
    crate::laws::documents::lemma_says(m, 5);
    crate::laws::documents::lemma_says(m, 6);
    crate::laws::documents::lemma_says(m, 7);
    crate::laws::documents::lemma_says(m, 8);
    crate::laws::documents::lemma_says(m, 9);
    crate::laws::documents::lemma_says(m, 10);
    crate::laws::documents::lemma_says(m, 11);
    crate::laws::documents::lemma_says(m, 12);
    crate::laws::documents::lemma_says(m, 13);
    crate::laws::documents::lemma_says(m, 14);
    crate::laws::documents::lemma_says(m, 15);
    crate::laws::documents::lemma_says(m, 16);
    crate::laws::documents::lemma_says(m, 17);
    crate::laws::documents::lemma_says(m, 18);
    crate::laws::documents::lemma_says(m, 19);
    crate::laws::documents::lemma_says(m, 20);
    crate::laws::documents::lemma_says(m, 21);
}

/// The report says of a lightmap its file, how it is written, its sides, its level, its digest and its length.
pub proof fn a_lightmap_is_said(f: crate::lightmaps::LightmapView)
    ensures
        ({
            let j = crate::summary::lightmap_json(f);
            &&& crate::laws::documents::says(j, "file"@, JsonView::Str(f.file_name))
            &&& crate::laws::documents::says(j, "format"@, JsonView::Str(f.format))
            &&& crate::laws::documents::counts(j, "width"@, f.width as int)
            &&& crate::laws::documents::counts(j, "height"@, f.height as int)
            &&& crate::laws::documents::counts(j, "mipLevel"@, f.mip_level as int)
            &&& crate::laws::documents::says(j, "sha256"@, JsonView::Str(f.sha256))
            &&& crate::laws::documents::counts(j, "byteLength"@, f.byte_length as int)
            &&& crate::laws::documents::size(j) == 7
        }),
{
    let m = crate::summary::lightmap_json(f)->Object_0;
    crate::laws::documents::lemma_says(m, 0);
    crate::laws::documents::lemma_says(m, 1);
    crate::laws::documents::lemma_says(m, 2);
    crate::laws::documents::lemma_says(m, 3);
    crate::laws::documents::lemma_says(m, 4);
    crate::laws::documents::lemma_says(m, 5);
    crate::laws::documents::lemma_says(m, 6);
}

/// The same of a lightmap for readers that lack the format.
pub proof fn a_fallback_is_said(f: crate::lightmaps::FallbackFile)
    ensures
        ({
            let j = crate::summary::fallback_json(f);
            &&& crate::laws::documents::says(j, "file"@, JsonView::Str(f.file_name@))
            &&& crate::laws::documents::counts(j, "width"@, f.width as int)
            &&& crate::laws::documents::counts(j, "height"@, f.height as int)
            &&& crate::laws::documents::counts(j, "byteLength"@, f.byte_length as int)
            &&& crate::laws::documents::says(j, "encoding"@, JsonView::Str(f.encoding@))
            &&& crate::laws::documents::says(j, "rgbmRange"@, match f.rgbm_range {
                Some(n) => JsonView::Single(n),
                None => JsonView::Null,
            })
            &&& crate::laws::documents::says(j, "decode"@, JsonView::Str(f.decode@))
            &&& crate::laws::documents::size(j) == 7
        }),
{
    let m = crate::summary::fallback_json(f)->Object_0;
    crate::laws::documents::lemma_says(m, 0);
    crate::laws::documents::lemma_says(m, 1);
    crate::laws::documents::lemma_says(m, 2);
    crate::laws::documents::lemma_says(m, 3);
    crate::laws::documents::lemma_says(m, 4);
    crate::laws::documents::lemma_says(m, 5);
    crate::laws::documents::lemma_says(m, 6);
}

/// The report says of the lighting its version, how coordinates are scaled, the lightmaps in order and the scale
/// of the light of probes.
pub proof fn lighting_is_said(l: Lighting)
    ensures
        ({
            let j = crate::summary::lighting_json(l);
            &&& crate::laws::documents::says(
                j,
                "lightmapFormatVersion"@,
                JsonView::Int(l.lightmap_version),
            )
            &&& crate::laws::documents::says(
                j,
                "uvScale"@,
                crate::laws::surfaces::singles(l.uv_scale@),
            )
            &&& crate::laws::documents::says(
                j,
                "lightmaps"@,
                JsonView::Array(
                    Seq::new(l.lightmaps@.len(), |i: int| crate::summary::lightmap_json(l.lightmaps@[i]@)),
                ),
            )
            &&& crate::laws::documents::says(
                j,
                "lightmapFallbacks"@,
                JsonView::Array(
                    Seq::new(l.fallbacks@.len(), |i: int| crate::summary::fallback_json(l.fallbacks@[i])),
                ),
            )
            &&& crate::laws::documents::says(j, "lpvScale"@, JsonView::Single(0x4200_0000))
            &&& crate::laws::documents::size(j) == 11
        }),
{
    let m = crate::summary::lighting_json(l)->Object_0;
    crate::laws::documents::lemma_says(m, 0);
    crate::laws::documents::lemma_says(m, 1);
    crate::laws::surfaces::lemma_singles(l.uv_scale@);
    crate::laws::documents::lemma_says(m, 3);
    crate::laws::documents::lemma_says(m, 4);
    crate::laws::documents::lemma_says(m, 6);
    assert(crate::summary::lightmaps_json(l.lightmaps@) =~= Seq::new(
        l.lightmaps@.len(),
        |i: int| crate::summary::lightmap_json(l.lightmaps@[i]@),
    ));
    assert(crate::summary::fallbacks_json(l.fallbacks@) =~= Seq::new(
        l.fallbacks@.len(),
        |i: int| crate::summary::fallback_json(l.fallbacks@[i]),
    ));
}

/// The report says which materials were left out, which resources were missing and which entities are hidden.
pub proof fn what_was_dropped_is_said(r: ReportView)
    ensures
        ({
            let j = crate::summary::dropped_json(r);
            &&& crate::laws::documents::says(
                j,
                "toolsMaterials"@,
                JsonView::Array(crate::report::drops_json(r.tools_dropped)),
            )
            &&& crate::laws::documents::says(
                j,
                "missingResources"@,
                JsonView::Array(crate::json::strs(r.missing_resources)),
            )
            &&& crate::laws::documents::says(
                j,
                "hiddenEntities"@,
                JsonView::Array(r.hidden_entities),
            )
            &&& crate::laws::documents::size(j) == 3
        }),
{
    let m = crate::summary::dropped_json(r)->Object_0;
    crate::laws::documents::lemma_says(m, 0);
    crate::laws::documents::lemma_says(m, 1);
    crate::laws::documents::lemma_says(m, 2);
}

/// The report says of the camera of the sky its scale, where it stands and how it is turned.
pub proof fn the_camera_of_the_sky_is_said(c: SkyCameraInfo)
    ensures
        ({
            let j = crate::skybox::camera_json(c);
            &&& crate::laws::documents::says(j, "scale"@, JsonView::Single(c.scale))
            &&& crate::laws::documents::says(
                j,
                "origin"@,
                crate::laws::surfaces::singles(c.origin@),
            )
            &&& crate::laws::documents::says(
                j,
                "angles"@,
                crate::laws::surfaces::singles(c.angles@),
            )
            &&& crate::laws::documents::size(j) == 3
        }),
{
    let m = crate::skybox::camera_json(c)->Object_0;
    crate::laws::documents::lemma_says(m, 0);
    crate::laws::documents::lemma_says(m, 1);
    crate::laws::surfaces::lemma_singles(c.origin@);
    crate::laws::documents::lemma_says(m, 2);
    crate::laws::surfaces::lemma_singles(c.angles@);
}

/// A reference to a sky says its map, where it stands, how it is turned and how it is scaled.
pub proof fn a_reference_is_said(r: SkyboxReferenceInfo)
    ensures
        ({
            let j = crate::skybox::reference_json(r);
            &&& crate::laws::documents::says(j, "targetMap"@, JsonView::Str(r.target_map@))
            &&& crate::laws::documents::says(
                j,
                "origin"@,
                crate::laws::surfaces::singles(r.origin@),
            )
            &&& crate::laws::documents::says(
                j,
                "angles"@,
                crate::laws::surfaces::singles(r.angles@),
            )
            &&& crate::laws::documents::says(
                j,
                "scales"@,
                crate::laws::surfaces::singles(r.scales@),
            )
            &&& crate::laws::documents::size(j) == 4
        }),
{
    let m = crate::skybox::reference_json(r)->Object_0;
    crate::laws::documents::lemma_says(m, 0);
    crate::laws::documents::lemma_says(m, 1);
    crate::laws::surfaces::lemma_singles(r.origin@);
    crate::laws::documents::lemma_says(m, 2);
    crate::laws::surfaces::lemma_singles(r.angles@);
    crate::laws::documents::lemma_says(m, 3);
    crate::laws::surfaces::lemma_singles(r.scales@);
}

/// A merged sky says its file, the scale and the place that the camera's document gives, the reference to it and
/// its own report.
pub proof fn a_merged_sky_is_said(
    r: SkyboxReferenceInfo,
    camera: JsonView,
    report: Seq<(Seq<char>, JsonView)>,
)
    ensures
        ({
            let j = crate::skybox::skybox_json(r, camera, report);
            &&& crate::laws::documents::says(j, "file"@, JsonView::Str("render_sky.glb"@))
            &&& crate::laws::documents::says(
                j,
                "scale"@,
                match crate::json::field_of(camera, "scale"@) {
                    Some(v) => v,
                    None => JsonView::Null,
                },
            )
            &&& crate::laws::documents::says(
                j,
                "origin"@,
                match crate::json::field_of(camera, "origin"@) {
                    Some(v) => v,
                    None => JsonView::Null,
                },
            )
            &&& crate::laws::documents::says(j, "reference"@, crate::skybox::reference_json(r))
            &&& crate::laws::documents::says(
                j,
                "report"@,
                JsonView::Object(crate::skybox::merged_report(report)),
            )
            &&& crate::laws::documents::size(j) == 10
        }),
{
    let m = crate::skybox::skybox_json(r, camera, report)->Object_0;
    crate::laws::documents::lemma_says(m, 0);
    crate::laws::documents::lemma_says(m, 2);
    crate::laws::documents::lemma_says(m, 3);
    crate::laws::documents::lemma_says(m, 5);
    crate::laws::documents::lemma_says(m, 9);
}

/// A level of a cube says its number, the sides of its faces and where its bytes stand.
pub proof fn a_level_of_a_cube_is_said(l: (u32, LevelInfo))
    ensures
        ({
            let j = crate::environment::cube_level_json(l);
            &&& crate::laws::documents::counts(j, "level"@, l.0 as int)
            &&& crate::laws::documents::counts(j, "faceWidth"@, l.1.width as int)
            &&& crate::laws::documents::counts(j, "faceHeight"@, l.1.height as int)
            &&& crate::laws::documents::counts(j, "byteOffset"@, l.1.offset as int)
            &&& crate::laws::documents::counts(j, "byteLength"@, l.1.length as int)
            &&& crate::laws::documents::size(j) == 5
        }),
{
    let m = crate::environment::cube_level_json(l)->Object_0;
    crate::laws::documents::lemma_says(m, 0);
    crate::laws::documents::lemma_says(m, 1);
    crate::laws::documents::lemma_says(m, 2);
    crate::laws::documents::lemma_says(m, 3);
    crate::laws::documents::lemma_says(m, 4);
}

/// The report says of the sky its file, how it is written, its sides, its levels in order, how it is turned, its tint
/// and how it is exposed.
#[verifier::spinoff_prover]
#[verifier::rlimit(50)]
pub proof fn the_sky_is_said(
    cube: SkyCube,
    rotation: [[u32; 3]; 3],
    tint: Seq<u32>,
    bias: u32,
    fallback: Option<Seq<Seq<char>>>,
)
    ensures
        ({
            let j = crate::environment::sky_json(cube, rotation, tint, bias, fallback);
            &&& crate::laws::documents::says(j, "file"@, JsonView::Str("render_sky_cube.bin"@))
            &&& crate::laws::documents::says(j, "format"@, JsonView::Str(cube.format@))
            &&& crate::laws::documents::counts(j, "width"@, cube.width as int)
            &&& crate::laws::documents::counts(j, "height"@, cube.height as int)
            &&& crate::laws::documents::says(j, "faceOrder"@, JsonView::Array(
                seq![
                    JsonView::Str("+X"@),
                    JsonView::Str("-X"@),
                    JsonView::Str("+Y"@),
                    JsonView::Str("-Y"@),
                    JsonView::Str("+Z"@),
                    JsonView::Str("-Z"@),
                ],
            ))
            &&& crate::laws::documents::says(j, "mips"@, JsonView::Array(
                Seq::new(
                    cube.levels@.len(),
                    |i: int| crate::environment::cube_level_json(cube.levels@[i]),
                ),
            ))
            &&& crate::laws::documents::says(j, "rotation"@, rows(rotation))
            &&& crate::laws::documents::says(j, "tint"@, crate::laws::surfaces::singles(tint))
            &&& crate::laws::documents::says(j, "exposureBias"@, JsonView::Single(bias))
            &&& crate::laws::documents::size(j) == 14
        }),
{
    let m = crate::environment::sky_json(cube, rotation, tint, bias, fallback)->Object_0;
    crate::laws::documents::lemma_says(m, 0);
    crate::laws::documents::lemma_says(m, 1);
    crate::laws::documents::lemma_says(m, 2);
    crate::laws::documents::lemma_says(m, 3);
    crate::laws::documents::lemma_says(m, 4);
    crate::laws::documents::lemma_says(m, 5);
    crate::laws::documents::lemma_says(m, 7);
    crate::laws::documents::lemma_says(m, 9);
    crate::laws::surfaces::lemma_singles(tint);
    crate::laws::documents::lemma_says(m, 11);
    assert(crate::environment::face_order() =~= seq![
        JsonView::Str("+X"@),
        JsonView::Str("-X"@),
        JsonView::Str("+Y"@),
        JsonView::Str("-Y"@),
        JsonView::Str("+Z"@),
        JsonView::Str("-Z"@),
    ]);
    assert(crate::environment::cube_levels_json(cube.levels@) =~= Seq::new(
        cube.levels@.len(),
        |i: int| crate::environment::cube_level_json(cube.levels@[i]),
    ));
    lemma_rows(rotation);
}

/// Three rows of a document, in order.
pub open spec fn rows(r: [[u32; 3]; 3]) -> JsonView {
    JsonView::Array(
        seq![
            crate::laws::surfaces::singles(r@[0]@),
            crate::laws::surfaces::singles(r@[1]@),
            crate::laws::surfaces::singles(r@[2]@),
        ],
    )
}

/// A rotation is written row by row.
proof fn lemma_rows(r: [[u32; 3]; 3])
    ensures
        rows(r) == crate::environment::rotation_json(r),
{
    crate::laws::surfaces::lemma_singles(r@[0]@);
    crate::laws::surfaces::lemma_singles(r@[1]@);
    crate::laws::surfaces::lemma_singles(r@[2]@);
    assert(rows(r)->Array_0 =~= crate::environment::rotation_json(r)->Array_0);
}

/// The report says of the fog where it begins and ends, near and high, how it grows, which cube it is taken of and
/// how that is turned and exposed.
#[verifier::spinoff_prover]
#[verifier::rlimit(80)]
pub proof fn the_fog_is_said(
    fog: Entity,
    cube: FogCube,
    rotation: [[u32; 3]; 3],
    bias: u32,
    scale: u32,
)
    ensures
        ({
            let j = crate::environment::fog_json(fog, cube, rotation, bias, scale);
            &&& crate::laws::documents::says(
                j,
                "start"@,
                JsonView::Single(number(fog, "cubemapfogstartdistance"@, 0)),
            )
            &&& crate::laws::documents::says(
                j,
                "end"@,
                JsonView::Single(number(fog, "cubemapfogenddistance"@, 0)),
            )
            &&& crate::laws::documents::says(
                j,
                "falloffExp"@,
                JsonView::Single(number(fog, "cubemapfogfalloffexponent"@, 0x3F80_0000)),
            )
            &&& crate::laws::documents::says(
                j,
                "hStart"@,
                JsonView::Single(number(fog, "cubemapfogheightstart"@, 0)),
            )
            &&& crate::laws::documents::says(
                j,
                "hEnd"@,
                JsonView::Single(number(fog, "cubemapfogheightend"@, 0)),
            )
            &&& crate::laws::documents::says(
                j,
                "hExp"@,
                JsonView::Single(number(fog, "cubemapfogheightexponent"@, 0x3F80_0000)),
            )
            &&& crate::laws::documents::says(
                j,
                "maxOpacity"@,
                JsonView::Single(number(fog, "cubemapfogmaxopacity"@, 0x3F80_0000)),
            )
            &&& crate::laws::documents::says(
                j,
                "lodBias"@,
                JsonView::Single(number(fog, "cubemapfoglodbiase"@, 0)),
            )
            &&& crate::laws::documents::says(
                j,
                "useHeight"@,
                JsonView::Bool(flag(fog, "cubemapheightfog"@, false)),
            )
            &&& crate::laws::documents::says(j, "skyCubeFile"@, JsonView::Str(cube.file@))
            &&& crate::laws::documents::says(j, "skyCubeFormat"@, JsonView::Str(cube.format@))
            &&& crate::laws::documents::counts(j, "skyCubeWidth"@, cube.width as int)
            &&& crate::laws::documents::counts(j, "skyCubeHeight"@, cube.height as int)
            &&& crate::laws::documents::says(j, "skyCubeMipLayout"@, cube.mip_layout@)
            &&& crate::laws::documents::says(
                j,
                "skyCubeMipsOrder"@,
                JsonView::Str(cube.mips_order@),
            )
            &&& crate::laws::documents::counts(j, "skyCubeBaseLevel"@, cube.base_level as int)
            &&& crate::laws::documents::says(j, "skyRotation"@, rows(rotation))
            &&& crate::laws::documents::says(j, "skyExposureBias"@, JsonView::Single(bias))
            &&& crate::laws::documents::says(j, "skyBrightnessScale"@, JsonView::Single(scale))
            &&& crate::laws::documents::counts(j, "skyMips"@, cube.mips as int)
            &&& crate::laws::documents::size(j) == 25
        }),
{
    let m = crate::environment::fog_json(fog, cube, rotation, bias, scale)->Object_0;
    crate::laws::documents::lemma_says(m, 0);
    crate::laws::documents::lemma_says(m, 1);
    crate::laws::documents::lemma_says(m, 2);
    crate::laws::documents::lemma_says(m, 3);
    crate::laws::documents::lemma_says(m, 4);
    crate::laws::documents::lemma_says(m, 5);
    crate::laws::documents::lemma_says(m, 6);
    crate::laws::documents::lemma_says(m, 7);
    crate::laws::documents::lemma_says(m, 8);
    crate::laws::documents::lemma_says(m, 9);
    crate::laws::documents::lemma_says(m, 11);
    crate::laws::documents::lemma_says(m, 12);
    crate::laws::documents::lemma_says(m, 13);
    crate::laws::documents::lemma_says(m, 14);
    crate::laws::documents::lemma_says(m, 16);
    crate::laws::documents::lemma_says(m, 17);
    crate::laws::documents::lemma_says(m, 19);
    crate::laws::documents::lemma_says(m, 21);
    crate::laws::documents::lemma_says(m, 22);
    crate::laws::documents::lemma_says(m, 23);
    lemma_rows(rotation);
}

/// The report says of the exposure whether it adapts, between what, and how fast.
pub proof fn exposure_is_said(v: Entity)
    ensures
        ({
            let j = crate::environment::exposure_json(v);
            &&& crate::laws::documents::says(
                j,
                "enabled"@,
                JsonView::Bool(flag(v, "enableexposure"@, true)),
            )
            &&& crate::laws::documents::says(
                j,
                "min"@,
                JsonView::Single(number(v, "minexposure"@, 0x3F4C_CCCD)),
            )
            &&& crate::laws::documents::says(
                j,
                "max"@,
                JsonView::Single(number(v, "maxexposure"@, 0x3F80_0000)),
            )
            &&& crate::laws::documents::says(
                j,
                "speedUp"@,
                JsonView::Single(number(v, "exposurespeedup"@, 0x3F80_0000)),
            )
            &&& crate::laws::documents::says(
                j,
                "speedDown"@,
                JsonView::Single(number(v, "exposurespeeddown"@, 0x3F80_0000)),
            )
            &&& crate::laws::documents::size(j) == 7
        }),
{
    let m = crate::environment::exposure_json(v)->Object_0;
    crate::laws::documents::lemma_says(m, 0);
    crate::laws::documents::lemma_says(m, 1);
    crate::laws::documents::lemma_says(m, 2);
    crate::laws::documents::lemma_says(m, 3);
    crate::laws::documents::lemma_says(m, 4);
}

/// The report says of a grading its file, what it has, and the table of its colours where it has one.
pub proof fn a_grading_is_said(path: Seq<char>, root: Value)
    ensures
        ({
            let j = crate::environment::vpost_json(path, root);
            &&& crate::laws::documents::says(j, "source"@, JsonView::Str(path))
            &&& crate::laws::documents::says(
                j,
                "hasTonemapParams"@,
                JsonView::Bool(crate::kv::child(root, "m_bHasTonemapParams"@) == Some(Value::Bool(true))),
            )
            &&& crate::laws::documents::says(
                j,
                "toneMapParams"@,
                match crate::kv::child(root, "m_toneMapParams"@) {
                    Some(v) => crate::environment::tonemap_json(v),
                    None => JsonView::Null,
                },
            )
            &&& crate::laws::documents::says(
                j,
                "hasBloomParams"@,
                JsonView::Bool(crate::kv::child(root, "m_bHasBloomParams"@) == Some(Value::Bool(true))),
            )
            &&& crate::laws::documents::says(
                j,
                "bloomParams"@,
                match crate::kv::child(root, "m_bloomParams"@) {
                    Some(v) => crate::environment::bloom_json(v),
                    None => JsonView::Null,
                },
            )
            &&& crate::laws::documents::says(
                j,
                "hasColorCorrection"@,
                JsonView::Bool(crate::kv::child(root, "m_bHasColorCorrection"@) == Some(Value::Bool(true))),
            )
            &&& crate::laws::documents::says(
                j,
                "colorCorrectionVolumeDim"@,
                JsonView::Int(match crate::kv::signed_at(root, "m_nColorCorrectionVolumeDim"@) {
                    Some(n) => n,
                    None => 0,
                }),
            )
            &&& crate::laws::documents::says(
                j,
                "colorCorrectionVolumeFile"@,
                if crate::environment::lut_of(root) is Some {
                    JsonView::Str("render_lut.bin"@)
                } else {
                    JsonView::Null
                },
            )
            &&& crate::laws::documents::size(j) == 11
        }),
{
    let m = crate::environment::vpost_json(path, root)->Object_0;
    crate::laws::documents::lemma_says(m, 0);
    crate::laws::documents::lemma_says(m, 1);
    crate::laws::documents::lemma_says(m, 2);
    crate::laws::documents::lemma_says(m, 4);
    crate::laws::documents::lemma_says(m, 5);
    crate::laws::documents::lemma_says(m, 7);
    crate::laws::documents::lemma_says(m, 8);
    crate::laws::documents::lemma_says(m, 9);
}

/// A report holds each of its parts under its name, and nothing where there is none.
#[verifier::spinoff_prover]
#[verifier::rlimit(50)]
pub proof fn a_report_says_all_its_parts(c: crate::export::CtxView, s: Surroundings)
    ensures
        ({
            let j = crate::summary::report_json(c, s);
            &&& crate::laws::documents::counts(j, "formatVersion"@, 3)
            &&& crate::laws::documents::says(
                j,
                "textureBudget"@,
                crate::summary::texture_budget_json(
                    s.max_texture,
                    c.catalog.dedup_hits,
                    c.catalog.dedup_bytes_saved,
                ),
            )
            &&& crate::laws::documents::says(j, "textures"@, JsonView::Array(
                Seq::new(
                    c.catalog.entries.len(),
                    |i: int| crate::native_texture::entry_json(c.catalog.entries[i]),
                ),
            ))
            &&& crate::laws::documents::says(
                j,
                "geometryCompression"@,
                crate::summary::compression_json(c.builder.float_meshes),
            )
            &&& crate::laws::documents::says(j, "sun"@, match s.sun {
                Some(sun) => crate::summary::sun_json(sun, s.shadow_channel),
                None => JsonView::Null,
            })
            &&& crate::laws::documents::says(j, "counts"@, crate::summary::counts_json(
                crate::summary::sizes_of(c, s.probe_volumes),
                c.report.counts,
            ))
            &&& crate::laws::documents::says(
                j,
                "perMaterialTriangles"@,
                JsonView::Array(crate::report::materials_json(c.report.per_material)),
            )
            &&& crate::laws::documents::says(j, "dropped"@, crate::summary::dropped_json(c.report))
            &&& crate::laws::documents::says(
                j,
                "entities"@,
                JsonView::Array(crate::report::classes_json(c.report.class_stats)),
            )
            &&& crate::laws::documents::says(
                j,
                "materialExtras"@,
                crate::summary::material_extras_json(c.report.material_extras),
            )
            &&& crate::laws::documents::says(
                j,
                "lighting"@,
                crate::summary::lighting_json(s.lighting),
            )
            &&& crate::laws::documents::says(j, "sky"@, match s.sky {
                Some(d) => d@,
                None => JsonView::Null,
            })
            &&& crate::laws::documents::says(j, "fog"@, match s.fog {
                Some(d) => d@,
                None => JsonView::Null,
            })
            &&& crate::laws::documents::says(j, "postProcessing"@, match s.post_processing {
                Some(d) => d@,
                None => JsonView::Null,
            })
            &&& crate::laws::documents::says(j, "skyCamera"@, match s.sky_camera {
                Some(d) => crate::skybox::camera_json(d),
                None => JsonView::Null,
            })
            &&& crate::laws::documents::size(j) == 16
        }),
{
    let m = crate::summary::report_json(c, s)->Object_0;
    crate::laws::documents::lemma_says(m, 0);
    crate::laws::documents::lemma_says(m, 1);
    crate::laws::documents::lemma_says(m, 2);
    crate::laws::documents::lemma_says(m, 4);
    crate::laws::documents::lemma_says(m, 5);
    crate::laws::documents::lemma_says(m, 6);
    crate::laws::documents::lemma_says(m, 7);
    crate::laws::documents::lemma_says(m, 8);
    crate::laws::documents::lemma_says(m, 9);
    crate::laws::documents::lemma_says(m, 10);
    crate::laws::documents::lemma_says(m, 11);
    crate::laws::documents::lemma_says(m, 12);
    crate::laws::documents::lemma_says(m, 13);
    crate::laws::documents::lemma_says(m, 14);
    crate::laws::documents::lemma_says(m, 15);
}

/// The sizes that a report says are those of what was gathered.
pub proof fn sizes_are_those_of_what_was_gathered(c: crate::export::CtxView, volumes: usize)
    requires
        c.builder.nodes.len() <= usize::MAX,
        c.builder.meshes.len() <= usize::MAX,
        c.builder.materials.len() <= usize::MAX,
        c.catalog.entries.len() <= usize::MAX,
        0 <= c.builder.image_bytes <= c.builder.bin.len() <= usize::MAX,
        0 <= c.builder.float_meshes <= usize::MAX,
    ensures
        ({
            let s = crate::summary::sizes_of(c, volumes);
            &&& s.nodes == c.builder.nodes.len()
            &&& s.meshes == c.builder.meshes.len()
            &&& s.materials == c.builder.materials.len()
            &&& s.textures == c.catalog.entries.len()
            &&& s.geometry_bytes + c.builder.image_bytes == c.builder.bin.len()
            &&& s.float_meshes == c.builder.float_meshes
            &&& s.probe_volumes == volumes
            &&& s.texture_bytes == crate::native_texture::bytes_of(
                c.catalog.entries,
                c.catalog.entries.len() as int,
            ) as u64
        }),
{
}

/// The extras of materials are said under the numbers of the materials.
pub proof fn extras_are_said_by_number(v: Seq<(u32, JsonView)>, i: int)
    requires
        0 <= i < v.len(),
    ensures
        crate::summary::numbered_members(v).len() == v.len(),
        crate::summary::numbered_members(v)[i].0 == crate::text::decimal_text(v[i].0 as int),
        crate::summary::numbered_members(v)[i].1 == v[i].1,
{
}

/// Numbers of a tree that are there are said under their own keys, in order.
pub proof fn numbers_are_said_under_their_keys(
    m: Seq<(Seq<char>, JsonView)>,
    v: Value,
    key: Seq<char>,
)
    ensures
        match crate::kv::single_at(v, key) {
            Some(f) => crate::environment::also_float(m, v, key) == m.push(
                (key, JsonView::Single(f)),
            ),
            None => crate::environment::also_float(m, v, key) == m,
        },
{
}

/// A number of the tone map is said under its own key, whichever others are there.
#[verifier::spinoff_prover]
#[verifier::rlimit(60)]
pub proof fn the_tone_map_says_its_numbers(v: Value, key: Seq<char>)
    requires
        key == "m_flExposureBias"@ || key == "m_flShoulderStrength"@ || key == "m_flLinearStrength"@
            || key == "m_flLinearAngle"@ || key == "m_flToeStrength"@ || key == "m_flToeNum"@ || key
            == "m_flToeDenom"@ || key == "m_flWhitePoint"@ || key == "m_flLuminanceSource"@ || key
            == "m_flExposureBiasShadows"@ || key == "m_flExposureBiasHighlights"@ || key
            == "m_flMinShadowLum"@ || key == "m_flMaxShadowLum"@ || key == "m_flMinHighlightLum"@
            || key == "m_flMaxHighlightLum"@,
    ensures
        crate::kv::single_at(v, key) matches Some(f) ==> crate::laws::documents::says(
            crate::environment::tonemap_json(v),
            key,
            JsonView::Single(f),
        ),
{
    let m0 = crate::json::empty();
    let m1 = crate::environment::also_float(m0, v, "m_flExposureBias"@);
    let m2 = crate::environment::also_float(m1, v, "m_flShoulderStrength"@);
    let m3 = crate::environment::also_float(m2, v, "m_flLinearStrength"@);
    let m4 = crate::environment::also_float(m3, v, "m_flLinearAngle"@);
    let m5 = crate::environment::also_float(m4, v, "m_flToeStrength"@);
    let m6 = crate::environment::also_float(m5, v, "m_flToeNum"@);
    let m7 = crate::environment::also_float(m6, v, "m_flToeDenom"@);
    let m8 = crate::environment::also_float(m7, v, "m_flWhitePoint"@);
    let m9 = crate::environment::also_float(m8, v, "m_flLuminanceSource"@);
    let m10 = crate::environment::also_float(m9, v, "m_flExposureBiasShadows"@);
    let m11 = crate::environment::also_float(m10, v, "m_flExposureBiasHighlights"@);
    let m12 = crate::environment::also_float(m11, v, "m_flMinShadowLum"@);
    let m13 = crate::environment::also_float(m12, v, "m_flMaxShadowLum"@);
    let m14 = crate::environment::also_float(m13, v, "m_flMinHighlightLum"@);
    lemma_float(m0, v, "m_flExposureBias"@, key);
    lemma_float(m1, v, "m_flShoulderStrength"@, key);
    lemma_float(m2, v, "m_flLinearStrength"@, key);
    lemma_float(m3, v, "m_flLinearAngle"@, key);
    lemma_float(m4, v, "m_flToeStrength"@, key);
    lemma_float(m5, v, "m_flToeNum"@, key);
    lemma_float(m6, v, "m_flToeDenom"@, key);
    lemma_float(m7, v, "m_flWhitePoint"@, key);
    lemma_float(m8, v, "m_flLuminanceSource"@, key);
    lemma_float(m9, v, "m_flExposureBiasShadows"@, key);
    lemma_float(m10, v, "m_flExposureBiasHighlights"@, key);
    lemma_float(m11, v, "m_flMinShadowLum"@, key);
    lemma_float(m12, v, "m_flMaxShadowLum"@, key);
    lemma_float(m13, v, "m_flMinHighlightLum"@, key);
    lemma_float(m14, v, "m_flMaxHighlightLum"@, key);
}

/// Whether members say the number of a tree under a key.
pub open spec fn says_number(m: Seq<(Seq<char>, JsonView)>, v: Value, key: Seq<char>) -> bool {
    crate::kv::single_at(v, key) matches Some(f) ==> crate::laws::documents::says(
        JsonView::Object(m),
        key,
        JsonView::Single(f),
    )
}

/// One number more is said, and what was said still is.
proof fn lemma_float(m: Seq<(Seq<char>, JsonView)>, v: Value, one: Seq<char>, key: Seq<char>)
    ensures
        key == one ==> says_number(crate::environment::also_float(m, v, one), v, key),
        says_number(m, v, key) ==> says_number(crate::environment::also_float(m, v, one), v, key),
{
    let n = crate::environment::also_float(m, v, one);
    if crate::kv::single_at(v, one) is Some {
        crate::laws::documents::lemma_says(n, m.len() as int);
        if crate::kv::single_at(v, key) is Some && says_number(m, v, key) {
            let f = crate::kv::single_at(v, key)->Some_0;
            let i = m.index_of((key, JsonView::Single(f)));
            assert(n[i] == m[i]);
            crate::laws::documents::lemma_says(n, i);
        }
    }
}

/// The same of the bloom.
#[verifier::spinoff_prover]
#[verifier::rlimit(40)]
pub proof fn the_bloom_says_its_numbers(v: Value, key: Seq<char>)
    requires
        key == "m_flBloomStrength"@ || key == "m_flScreenBloomStrength"@ || key
            == "m_flBlurBloomStrength"@ || key == "m_flBloomThreshold"@ || key
            == "m_flBloomThresholdWidth"@ || key == "m_flSkyboxBloomStrength"@ || key
            == "m_flBloomStartValue"@,
    ensures
        crate::kv::single_at(v, key) matches Some(f) ==> crate::laws::documents::says(
            crate::environment::bloom_json(v),
            key,
            JsonView::Single(f),
        ),
{
    let m0 = crate::json::empty();
    let m1 = crate::environment::also_float(m0, v, "m_flBloomStrength"@);
    let m2 = crate::environment::also_float(m1, v, "m_flScreenBloomStrength"@);
    let m3 = crate::environment::also_float(m2, v, "m_flBlurBloomStrength"@);
    let m4 = crate::environment::also_float(m3, v, "m_flBloomThreshold"@);
    let m5 = crate::environment::also_float(m4, v, "m_flBloomThresholdWidth"@);
    let m6 = crate::environment::also_float(m5, v, "m_flSkyboxBloomStrength"@);
    lemma_float(m0, v, "m_flBloomStrength"@, key);
    lemma_float(m1, v, "m_flScreenBloomStrength"@, key);
    lemma_float(m2, v, "m_flBlurBloomStrength"@, key);
    lemma_float(m3, v, "m_flBloomThreshold"@, key);
    lemma_float(m4, v, "m_flBloomThresholdWidth"@, key);
    lemma_float(m5, v, "m_flSkyboxBloomStrength"@, key);
    lemma_float(m6, v, "m_flBloomStartValue"@, key);
}

/// A sky is the entity of its class; it is off where it says that it starts disabled or is not enabled.
pub proof fn a_sky_is_off_where_it_says_so(e: Entity)
    ensures
        crate::environment::is_sky(e) == crate::text::same_ignoring_case(
            crate::entity::class_of(e),
            "env_sky"@,
        ),
        crate::environment::is_disabled(e) == (crate::entity::flag_of(e, "startdisabled"@) == Some(
            true,
        ) || crate::entity::flag_of(e, "enabled"@) == Some(false)),
{
}

/// A cube is read from the level that a reader needs at least, but never beyond its last.
pub proof fn a_cube_is_read_from_the_level_it_needs(total: u32, floor: Option<u32>)
    ensures
        floor is None ==> crate::environment::base_level_of(total, floor) == 0,
        total == 0 ==> crate::environment::base_level_of(total, floor) == 0,
        floor matches Some(f) ==> (f < total ==> crate::environment::base_level_of(total, floor)
            == f),
        floor matches Some(f) ==> (f >= total > 0 ==> crate::environment::base_level_of(
            total,
            floor,
        ) == total - 1),
{
}

/// The fog is taken of the sky that it names, of a material, or of a texture, by its number: 1, 2 or any
/// other. A number counts as the nearest.
pub proof fn the_fog_is_taken_of_what_it_names(v: Seq<Entity>, fog: Entity, bits: u32, i: int)
    requires
        number(fog, "cubemapfogsource"@, 0) == bits,
    ensures
        ({
            let one = 0x3F00_0000 <= bits < 0x3FC0_0000;
            let two = 0x3FC0_0000 <= bits < 0x4020_0000;
            let r = crate::environment::fog_source_of(v, fog);
            let name = match crate::entity::text_of(fog, "cubemapfogskyentity"@) {
                Some(s) => s,
                None => ""@,
            };
            &&& two ==> (r matches Ok(s) && {
                &&& s.angles == fog.angles
                &&& s.brightness_scale == 0x3F80_0000
                &&& s.material == crate::entity::text_of(fog, "cubemapfogskymaterial"@)
                &&& s.direct_texture is None
            })
            &&& !one && !two ==> (r matches Ok(s) && {
                &&& s.angles == fog.angles
                &&& s.brightness_scale == 0x3F80_0000
                &&& s.material is None
                &&& s.direct_texture == crate::entity::text_of(fog, "cubemapfogtexture"@)
            })
            &&& one && 0 <= i < v.len() && crate::entity::text_of(v[i], "targetname"@) == Some(name)
                && (forall|k: int|
                0 <= k < i ==> crate::entity::text_of(#[trigger] v[k], "targetname"@) != Some(
                    name,
                )) ==> (r matches Ok(s) && {
                let scale = number(v[i], "brightnessscale"@, 0x3F80_0000);
                &&& s.angles == v[i].angles
                &&& s.brightness_scale == if 0 < scale <= 0x7F80_0000 {
                    scale
                } else {
                    0x3F80_0000
                }
                &&& s.material == crate::entity::text_of(v[i], "skyname"@)
                &&& s.direct_texture is None
            })
            &&& one && (forall|k: int|
                0 <= k < v.len() ==> crate::entity::text_of(#[trigger] v[k], "targetname"@) != Some(
                    name,
                )) ==> r is Err
        }),
{
    let name = crate::environment::sky_name(fog);
    let holds = |e: Entity| crate::entity::target_of(e) == Some(name);
    if 0x3F00_0000 <= bits < 0x3FC0_0000 {
        if 0 <= i < v.len() && crate::entity::text_of(v[i], "targetname"@) == Some(name) && (forall|
            k: int,
        |
            0 <= k < i ==> crate::entity::text_of(#[trigger] v[k], "targetname"@) != Some(name)) {
            crate::laws::entities::lemma_first(v, holds, 0, i);
        }
        if forall|k: int|
            0 <= k < v.len() ==> crate::entity::text_of(#[trigger] v[k], "targetname"@) != Some(
                name,
            ) {
            crate::laws::entities::the_first_entity_is_found(v, holds, 0);
        }
    }
}

/// The grading is that of the first volume that is the master, else of the first.
pub proof fn the_master_volume_grades(v: Seq<Entity>, i: int)
    requires
        0 <= i < v.len(),
        crate::entity::has_class(v[i], "post_processing_volume"@),
    ensures
        crate::entity::flag_of(v[i], "master"@) == Some(true) && (forall|k: int|
            0 <= k < i ==> !crate::entity::has_class(#[trigger] v[k], "post_processing_volume"@)
                || crate::entity::flag_of(v[k], "master"@) != Some(true))
            ==> crate::environment::grading_volume(v) == Some(v[i]),
        (forall|k: int|
            0 <= k < v.len() ==> crate::entity::flag_of(#[trigger] v[k], "master"@) != Some(true))
            && (forall|k: int|
            0 <= k < i ==> !crate::entity::has_class(#[trigger] v[k], "post_processing_volume"@))
            ==> crate::environment::grading_volume(v) == Some(v[i]),
{
    let master = |e: Entity|
        crate::entity::has_class(e, "post_processing_volume"@) && crate::entity::flag_of(
            e,
            "master"@,
        ) == Some(true);
    let any = |e: Entity| crate::entity::has_class(e, "post_processing_volume"@);
    if crate::entity::flag_of(v[i], "master"@) == Some(true) && (forall|k: int|
        0 <= k < i ==> !crate::entity::has_class(#[trigger] v[k], "post_processing_volume"@)
            || crate::entity::flag_of(v[k], "master"@) != Some(true)) {
        crate::laws::entities::lemma_first(v, master, 0, i);
    }
    if (forall|k: int|
        0 <= k < v.len() ==> crate::entity::flag_of(#[trigger] v[k], "master"@) != Some(true)) && (
    forall|k: int|
        0 <= k < i ==> !crate::entity::has_class(#[trigger] v[k], "post_processing_volume"@)) {
        crate::laws::entities::the_first_entity_is_found(v, master, 0);
        crate::laws::entities::lemma_first(v, any, 0, i);
    }
}

/// What was found is added to what was, each part in its own place; a sky whose faces could not be made is
/// there without them, and why is told.
pub proof fn what_is_found_is_added(
    e: EnvironmentView,
    cube: SkyCube,
    faces: Result<Vec<(String, Vec<u8>)>, String>,
    rotation: [[u32; 3]; 3],
    tint: Seq<u32>,
    bias: u32,
)
    ensures
        ({
            let r = crate::environment::with_sky(e, Ok(cube), faces, rotation, tint, bias);
            &&& r.sky_cube_bytes == Some(cube.bytes@)
            &&& r.fog_json == e.fog_json
            &&& r.fog_cube_bytes == e.fog_cube_bytes
            &&& r.post_json == e.post_json
            &&& r.lut_bytes == e.lut_bytes
            &&& faces matches Ok(f) ==> {
                &&& r.missing == e.missing
                &&& r.sky_fallback_files.len() == e.sky_fallback_files.len() + f@.len()
                &&& forall|i: int|
                    0 <= i < f@.len() ==> {
                        &&& (#[trigger] r.sky_fallback_files[e.sky_fallback_files.len() + i]).0
                            == f@[i].0@
                        &&& r.sky_fallback_files[e.sky_fallback_files.len() + i].1 == f@[i].1@
                    }
                &&& r.sky_json == Some(
                    crate::environment::sky_json(
                        cube,
                        rotation,
                        tint,
                        bias,
                        Some(Seq::new(f@.len(), |i: int| f@[i].0@)),
                    ),
                )
            }
            &&& faces matches Err(why) ==> {
                &&& r.missing == e.missing.push(why@)
                &&& r.sky_fallback_files == e.sky_fallback_files
                &&& r.sky_json == Some(
                    crate::environment::sky_json(cube, rotation, tint, bias, None),
                )
            }
        }),
{
    if faces is Ok {
        let f = faces->Ok_0;
        assert(crate::environment::names_of(f@) =~= Seq::new(f@.len(), |i: int| f@[i].0@));
    }
}

/// The files of the surroundings come in order: the cube of the sky, its faces, the cube of the fog and the
/// table of colours, each where it is there.
pub proof fn files_of_the_surroundings_come_in_order(
    sky: Option<Vec<u8>>,
    faces: Seq<(Seq<char>, Seq<u8>)>,
    fog: Option<Vec<u8>>,
    lut: Option<Vec<u8>>,
)
    ensures
        crate::environment::environment_files(sky, faces, fog, lut) == one_file(
            "render_sky_cube.bin"@,
            sky,
        ) + faces + one_file("render_fog_cube.bin"@, fog) + one_file("render_lut.bin"@, lut),
{
    assert(crate::environment::environment_files(sky, faces, fog, lut) =~= one_file(
        "render_sky_cube.bin"@,
        sky,
    ) + faces + one_file("render_fog_cube.bin"@, fog) + one_file("render_lut.bin"@, lut));
}

/// A file, where it is there.
pub open spec fn one_file(name: Seq<char>, bytes: Option<Vec<u8>>) -> Seq<(Seq<char>, Seq<u8>)> {
    match bytes {
        Some(b) => seq![(name, b@)],
        None => Seq::empty(),
    }
}

/// The report says how long the side of a texture may be, of each role, and what was not written twice.
pub proof fn textures_that_were_shared_are_said(side: u32, hits: u32, saved: u64)
    ensures
        ({
            let j = crate::summary::texture_budget_json(side, hits, saved);
            &&& crate::laws::documents::counts(j, "maxSide"@, side as int)
            &&& exists|d: JsonView| #[trigger]
                crate::laws::documents::says(j, "dedup"@, d) && crate::laws::documents::counts(
                    d,
                    "hits"@,
                    hits as int,
                ) && crate::laws::documents::counts(d, "bytesSaved"@, saved as int)
            &&& exists|t: JsonView| #[trigger]
                crate::laws::documents::says(j, "byType"@, t) && has_budget(
                    t,
                    "color"@,
                    side as int,
                ) && has_budget(
                    t,
                    "normal"@,
                    crate::gltf_material::side_limit(TextureRole::Normal, side) as int,
                ) && has_budget(
                    t,
                    "mask"@,
                    crate::gltf_material::side_limit(TextureRole::Mask, side) as int,
                )
            &&& crate::laws::documents::size(j) == 3
        }),
{
    let m = crate::summary::texture_budget_json(side, hits, saved)->Object_0;
    crate::laws::documents::lemma_says(m, 0);
    crate::laws::documents::lemma_says(m, 1);
    crate::laws::documents::lemma_says(m, 2);
    let t = m[1].1->Object_0;
    crate::laws::documents::lemma_says(t, 0);
    crate::laws::documents::lemma_says(t, 1);
    crate::laws::documents::lemma_says(t, 2);
    crate::laws::documents::lemma_says(t[0].1->Object_0, 0);
    crate::laws::documents::lemma_says(t[1].1->Object_0, 0);
    crate::laws::documents::lemma_says(t[2].1->Object_0, 0);
    let d = m[2].1->Object_0;
    crate::laws::documents::lemma_says(d, 1);
    crate::laws::documents::lemma_says(d, 2);
}

/// Whether a document says how long a side may be under a key.
pub open spec fn has_budget(t: JsonView, key: Seq<char>, side: int) -> bool {
    exists|b: JsonView| #[trigger]
        crate::laws::documents::says(t, key, b) && crate::laws::documents::counts(
            b,
            "maxSide"@,
            side,
        )
}

/// The report says of the compression which extensions a reader must know, at which version and level it was
/// made, and how many meshes have positions as singles.
pub proof fn compression_is_said(meshes: int)
    requires
        0 <= meshes <= u64::MAX,
    ensures
        ({
            let j = crate::summary::compression_json(meshes);
            &&& crate::laws::documents::says(j, "extensionsRequired"@, JsonView::Array(
                seq![
                    JsonView::Str("KHR_mesh_quantization"@),
                    JsonView::Str("KHR_meshopt_compression"@),
                ],
            ))
            &&& crate::laws::documents::counts(j, "positionFloatFallbackMeshes"@, meshes)
            &&& crate::laws::documents::counts(j, "meshoptVersion"@, 1)
            &&& crate::laws::documents::counts(j, "meshoptLevel"@, 3)
            &&& crate::laws::documents::size(j) == 8
        }),
{
    let m = crate::summary::compression_json(meshes)->Object_0;
    crate::laws::documents::lemma_says(m, 0);
    crate::laws::documents::lemma_says(m, 2);
    crate::laws::documents::lemma_says(m, 5);
    crate::laws::documents::lemma_says(m, 6);
    assert(m[0].1->Array_0 =~= seq![
        JsonView::Str("KHR_mesh_quantization"@),
        JsonView::Str("KHR_meshopt_compression"@),
    ]);
}

/// The files of the lightmaps come in order, each with its bytes.
pub proof fn files_of_lightmaps_come_in_order(
    v: Seq<crate::lightmaps::LightmapFile>,
    w: Seq<crate::lightmaps::FallbackFile>,
    i: int,
)
    ensures
        crate::summary::lightmap_files(v).len() == v.len(),
        0 <= i < v.len() ==> crate::summary::lightmap_files(v)[i].0 == v[i].file_name@
            && crate::summary::lightmap_files(v)[i].1 == v[i].bytes@,
        crate::summary::fallback_files(w).len() == w.len(),
        0 <= i < w.len() ==> crate::summary::fallback_files(w)[i].0 == w[i].file_name@
            && crate::summary::fallback_files(w)[i].1 == w[i].bytes@,
{
}

/// A document with a material that is not lit uses the extension for that, and no other.
pub proof fn an_unlit_material_uses_its_extension(unlit: bool)
    ensures
        unlit ==> crate::summary::used_extensions(unlit) == seq!["KHR_materials_unlit"@],
        !unlit ==> crate::summary::used_extensions(unlit).len() == 0,
{
    assert(Seq::<Seq<char>>::empty().push("KHR_materials_unlit"@) =~= seq![
        "KHR_materials_unlit"@,
    ]);
}

/// The fog and the grading are added in their places, and nothing else changes; a cube that the fog does not
/// bring leaves the one that is there.
pub proof fn fog_and_grading_are_added(
    e: EnvironmentView,
    fog: Entity,
    cube: FogCube,
    bytes: Option<Vec<u8>>,
    rotation: [[u32; 3]; 3],
    bias: u32,
    scale: u32,
    document: crate::json::Json,
)
    ensures
        ({
            let r = crate::environment::with_fog(e, fog, Ok((cube, bytes)), rotation, bias, scale);
            &&& r.fog_json == Some(
                crate::environment::fog_json(fog, cube, rotation, bias, scale),
            )
            &&& bytes matches Some(b) ==> r.fog_cube_bytes == Some(b@)
            &&& bytes is None ==> r.fog_cube_bytes == e.fog_cube_bytes
            &&& r.sky_json == e.sky_json
            &&& r.sky_cube_bytes == e.sky_cube_bytes
            &&& r.sky_fallback_files == e.sky_fallback_files
            &&& r.post_json == e.post_json
            &&& r.lut_bytes == e.lut_bytes
            &&& r.missing == e.missing
        }),
        ({
            let r = crate::environment::with_post(e, fog, Ok((document, bytes)));
            &&& r.post_json matches Some(p) && crate::laws::documents::says(
                p,
                "exposure"@,
                crate::environment::exposure_json(fog),
            ) && crate::laws::documents::says(p, "vpost"@, document@)
            &&& bytes matches Some(b) ==> r.lut_bytes == Some(b@)
            &&& bytes is None ==> r.lut_bytes is None
            &&& r.sky_json == e.sky_json
            &&& r.sky_cube_bytes == e.sky_cube_bytes
            &&& r.sky_fallback_files == e.sky_fallback_files
            &&& r.fog_json == e.fog_json
            &&& r.fog_cube_bytes == e.fog_cube_bytes
            &&& r.missing == e.missing
        }),
{
    let p = crate::environment::post_json(fog, document@)->Object_0;
    crate::laws::documents::lemma_says(p, 0);
    crate::laws::documents::lemma_says(p, 1);
}

/// The faces of a sky are named and ordered: each direction, forth and back.
pub proof fn faces_are_named_in_order(files: Seq<Seq<char>>)
    ensures
        crate::environment::face_name(0) == "px"@,
        crate::environment::face_name(1) == "nx"@,
        crate::environment::face_name(2) == "py"@,
        crate::environment::face_name(3) == "ny"@,
        crate::environment::face_name(4) == "pz"@,
        crate::environment::face_name(5) == "nz"@,
        crate::laws::documents::says(
            crate::environment::sky_fallback_json(Some(files)),
            "files"@,
            JsonView::Array(crate::json::strs(files)),
        ),
        crate::laws::documents::says(
            crate::environment::sky_fallback_json(Some(files)),
            "encoding"@,
            JsonView::Str("RGBM8"@),
        ),
        crate::laws::documents::says(
            crate::environment::sky_fallback_json(Some(files)),
            "rgbmRange"@,
            JsonView::Single(0x4100_0000),
        ),
        crate::environment::sky_fallback_json(None) == JsonView::Null,
{
    let m = crate::environment::sky_fallback_json(Some(files))->Object_0;
    crate::laws::documents::lemma_says(m, 0);
    crate::laws::documents::lemma_says(m, 2);
    crate::laws::documents::lemma_says(m, 3);
}

/// The levels of a cube keep their numbers beside their places; its format is that of the last.
pub proof fn levels_of_a_cube_keep_their_numbers(
    v: Seq<crate::environment::CubeLevel>,
    places: Seq<LevelInfo>,
    i: int,
)
    requires
        0 <= i < v.len() == places.len(),
    ensures
        crate::environment::numbered_levels(v, places).len() == v.len(),
        crate::environment::numbered_levels(v, places)[i].0 == v[i].level,
        crate::environment::numbered_levels(v, places)[i].1 == places[i],
        crate::lightmaps::block_format(v[v.len() - 1].format) matches Some(f)
            ==> crate::environment::cube_format(v) == f,
{
}

/// The extras of the materials are said under one key, by the numbers of the materials.
pub proof fn extras_of_materials_are_said(v: Seq<(u32, JsonView)>)
    ensures
        crate::laws::documents::says(
            crate::summary::material_extras_json(v),
            "byMaterial"@,
            JsonView::Object(crate::summary::numbered_members(v)),
        ),
        crate::laws::documents::size(crate::summary::material_extras_json(v)) == 4,
{
    crate::laws::documents::lemma_says(crate::summary::material_extras_json(v)->Object_0, 3);
}

/// The first level of a cube whose format has no name is found; none where each has one.
pub proof fn the_first_level_without_a_name_is_found(
    v: Seq<crate::environment::CubeLevel>,
    from: int,
)
    requires
        0 <= from <= v.len(),
    ensures
        match crate::environment::unmapped_from(v, from) {
            Some(l) => exists|i: int|
                from <= i < v.len() && #[trigger] v[i] == l && crate::lightmaps::block_format(
                    l.format,
                ) is None && forall|k: int|
                    from <= k < i ==> crate::lightmaps::block_format(
                        (#[trigger] v[k]).format,
                    ) is Some,
            None => forall|k: int|
                from <= k < v.len() ==> crate::lightmaps::block_format(
                    (#[trigger] v[k]).format,
                ) is Some,
        },
    decreases v.len() - from,
{
    if from < v.len() && crate::lightmaps::block_format(v[from].format) is Some {
        the_first_level_without_a_name_is_found(v, from + 1);
    } else if from < v.len() {
        assert(v[from] == v[from]);
    }
}

/// What parts of the report mean is said beside each of them.
pub proof fn meanings_are_said_beside_their_parts(l: Lighting, s: Sun, channel: Option<i64>)
    ensures
        ({
            let j = crate::summary::lighting_json(l);
            &&& crate::laws::documents::says(
                j,
                "uvScaleMeaning"@,
                JsonView::Str(crate::summary::UV_SCALE_MEANING@),
            )
            &&& crate::laws::documents::says(
                j,
                "lightmapFallbacksMeaning"@,
                JsonView::Str(crate::summary::FALLBACKS_MEANING@),
            )
            &&& crate::laws::documents::says(
                j,
                "lpvScaleMeaning"@,
                JsonView::Str(crate::summary::LPV_SCALE_MEANING@),
            )
            &&& crate::laws::documents::says(
                j,
                "extrasLightingMeaning"@,
                JsonView::Str(crate::summary::LIGHTING_MEANING@),
            )
            &&& crate::laws::documents::says(
                j,
                "overlayOrderMeaning"@,
                JsonView::Str(crate::summary::OVERLAY_ORDER_MEANING@),
            )
            &&& crate::laws::documents::says(
                j,
                "lightProbeHandshakeMeaning"@,
                JsonView::Str(crate::summary::HANDSHAKE_MEANING@),
            )
        }),
        ({
            let j = crate::summary::sun_json(s, channel);
            &&& crate::laws::documents::says(
                j,
                "directionMeaning"@,
                JsonView::Str(crate::summary::SUN_DIRECTION_MEANING@),
            )
            &&& crate::laws::documents::says(
                j,
                "bakedShadowChannelMeaning"@,
                JsonView::Str(crate::summary::SUN_SHADOW_MEANING@),
            )
        }),
{
    let m = crate::summary::lighting_json(l)->Object_0;
    crate::laws::documents::lemma_says(m, 2);
    crate::laws::documents::lemma_says(m, 5);
    crate::laws::documents::lemma_says(m, 7);
    crate::laws::documents::lemma_says(m, 8);
    crate::laws::documents::lemma_says(m, 9);
    crate::laws::documents::lemma_says(m, 10);
    let n = crate::summary::sun_json(s, channel)->Object_0;
    crate::laws::documents::lemma_says(n, 1);
    crate::laws::documents::lemma_says(n, 13);
}

/// What parts of a merged sky mean is said beside them.
pub proof fn meanings_of_a_merged_sky_are_said(
    r: SkyboxReferenceInfo,
    camera: JsonView,
    report: Seq<(Seq<char>, JsonView)>,
)
    ensures
        ({
            let j = crate::skybox::skybox_json(r, camera, report);
            &&& crate::laws::documents::says(
                j,
                "fileMeaning"@,
                JsonView::Str(crate::skybox::FILE_MEANING@),
            )
            &&& crate::laws::documents::says(
                j,
                "originMeaning"@,
                JsonView::Str(crate::skybox::ORIGIN_MEANING@),
            )
            &&& crate::laws::documents::says(
                j,
                "referenceMeaning"@,
                JsonView::Str(crate::skybox::REFERENCE_MEANING@),
            )
            &&& crate::laws::documents::says(
                j,
                "cameraFormula"@,
                JsonView::Str(crate::skybox::CAMERA_FORMULA@),
            )
            &&& crate::laws::documents::says(
                j,
                "renderOrder"@,
                JsonView::Str(crate::skybox::RENDER_ORDER@),
            )
        }),
{
    let m = crate::skybox::skybox_json(r, camera, report)->Object_0;
    crate::laws::documents::lemma_says(m, 1);
    crate::laws::documents::lemma_says(m, 4);
    crate::laws::documents::lemma_says(m, 6);
    crate::laws::documents::lemma_says(m, 7);
    crate::laws::documents::lemma_says(m, 8);
}

} // verus!
