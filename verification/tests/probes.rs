//! Probe volumes: how they are put in order and bound, and the cells that a sample reads.

use s2render::entity::{Entity, EntityLump, Property, ValueKind};
use s2render::probes::{
    bind_volume, cap_to_atlas, clamp_pair, collect_volumes, face_slice, keep_channels,
    parse_volume, shadow_channel_index, texel_start, volume_entities, ProbeVolume, SliceOrder, VolumeFields,
    SLICE_CACHE_CAP,
};
use s2render::world::IDENTITY_TRANSFORM;

fn bits(v: [f32; 3]) -> [u32; 3] {
    v.map(f32::to_bits)
}

fn synthetic_volume(
    handshake: i64,
    level: i64,
    aabb_min: [f32; 3],
    aabb_max: [f32; 3],
    atlas_size: [f32; 3],
    atlas_offset: [f32; 3],
) -> ProbeVolume {
    ProbeVolume {
        fields: VolumeFields {
            handshake,
            level,
            box_mins: bits([0.0, 0.0, 0.0]),
            box_maxs: bits([1.0, 1.0, 1.0]),
            atlas_size: bits(atlas_size),
            atlas_offset: bits(atlas_offset),
        },
        world_to_local: IDENTITY_TRANSFORM,
        world_aabb_min: bits(aabb_min),
        world_aabb_max: bits(aabb_max),
        footprint: atlas_size.iter().map(|c| c * c).sum::<f32>().to_bits(),
    }
}

#[test]
fn bind_volume_handshake_match_wins_over_aabb_order() {
    let global = synthetic_volume(0, -2, [-1e6; 3], [1e6; 3], [4.0; 3], [0.0; 3]);
    let specific = synthetic_volume(
        42,
        0,
        [100.0, 100.0, 100.0],
        [200.0, 200.0, 200.0],
        [4.0; 3],
        [0.0; 3],
    );
    let volumes = vec![global, specific];
    let bound = bind_volume(&volumes, 42, &bits([0.0, 0.0, 0.0])).expect("handshake match");
    assert_eq!(bound.fields.handshake, 42);
}

#[test]
fn bind_volume_prefers_the_first_containing_volume_in_sorted_order() {
    let higher_priority = synthetic_volume(
        0,
        5,
        [-10.0, -10.0, -10.0],
        [10.0, 10.0, 10.0],
        [4.0; 3],
        [0.0; 3],
    );
    let lower_priority = synthetic_volume(
        0,
        0,
        [-100.0, -100.0, -100.0],
        [100.0, 100.0, 100.0],
        [4.0; 3],
        [0.0; 3],
    );
    let volumes = vec![higher_priority, lower_priority];
    let bound = bind_volume(&volumes, 0, &bits([1.0, 1.0, 1.0])).expect("aabb match");
    assert_eq!(bound.fields.level, 5);
}

#[test]
fn bind_volume_falls_back_to_the_last_volume_when_nothing_contains_the_point() {
    let a = synthetic_volume(0, 0, [-1.0, -1.0, -1.0], [1.0, 1.0, 1.0], [4.0; 3], [0.0; 3]);
    let global = synthetic_volume(0, -2, [-2.0, -2.0, -2.0], [2.0, 2.0, 2.0], [4.0; 3], [0.0; 3]);
    let volumes = vec![a, global];
    let bound =
        bind_volume(&volumes, 0, &bits([1000.0, 1000.0, 1000.0])).expect("fallback to the last");
    assert_eq!(
        bound.fields.level, -2,
        "the last (global) volume must be the fallback"
    );
    assert!(bind_volume(&vec![], 0, &bits([0.0; 3])).is_none());
}

fn bare(key: &str, kind: ValueKind) -> Property {
    Property {
        key: key.to_string(),
        kind,
        text: None,
        flag: None,
        number: None,
        single: None,
        vector: None,
    }
}

fn text(key: &str, s: &str) -> Property {
    Property { text: Some(s.to_string()), ..bare(key, ValueKind::Text) }
}

fn whole(key: &str, i: i64) -> Property {
    Property {
        number: Some((i as f64).to_bits()),
        single: Some((i as f32).to_bits()),
        ..bare(key, ValueKind::Integer)
    }
}

fn float(key: &str, f: f32) -> Property {
    Property {
        number: Some(f64::from(f).to_bits()),
        single: Some(f.to_bits()),
        ..bare(key, ValueKind::Float)
    }
}

fn vector(key: &str, v: [f32; 3]) -> Property {
    Property { vector: Some(bits(v)), ..bare(key, ValueKind::Vector) }
}

fn probe_volume_entity(handshake: i64, level: i64, size: [f32; 3]) -> Entity {
    Entity::new(vec![
        text("classname", "env_combined_light_probe_volume"),
        vector("box_mins", [-1.0, -1.0, -1.0]),
        vector("box_maxs", [1.0, 1.0, 1.0]),
        whole("handshake", handshake),
        whole("indoor_outdoor_level", level),
        float("light_probe_size_x", size[0]),
        float("light_probe_size_y", size[1]),
        float("light_probe_size_z", size[2]),
        float("light_probe_atlas_x", 0.0),
        float("light_probe_atlas_y", 0.0),
        float("light_probe_atlas_z", 0.0),
    ])
}

/// The volume of an entity that stands at the origin.
fn volume_of(e: &Entity) -> Option<ProbeVolume> {
    let fields = parse_volume(e)?;
    let size = fields.atlas_size.map(f32::from_bits);
    Some(ProbeVolume {
        fields,
        world_to_local: IDENTITY_TRANSFORM,
        world_aabb_min: fields.box_mins,
        world_aabb_max: fields.box_maxs,
        footprint: size.iter().map(|c| c * c).sum::<f32>().to_bits(),
    })
}

#[test]
fn collect_volumes_sorts_by_level_desc_then_atlas_size_asc() {
    let entities = vec![
        probe_volume_entity(1, 0, [10.0, 10.0, 10.0]),
        probe_volume_entity(2, 5, [4.0, 4.0, 4.0]),
        probe_volume_entity(3, 5, [2.0, 2.0, 2.0]),
    ];
    let candidates = entities.iter().map(volume_of).collect();
    let (volumes, skipped) = collect_volumes(&candidates);
    assert_eq!(skipped, 0);
    assert_eq!(
        volumes.iter().map(|v| v.fields.handshake).collect::<Vec<_>>(),
        vec![3, 2, 1]
    );
}

#[test]
fn a_volume_that_lacks_its_box_is_left_out() {
    let mut entity = probe_volume_entity(1, 0, [1.0; 3]);
    entity.properties.remove(1);
    let whole_one = probe_volume_entity(2, 0, [1.0; 3]);
    let (volumes, skipped) = collect_volumes(&vec![volume_of(&entity), volume_of(&whole_one)]);
    assert_eq!(skipped, 1);
    assert_eq!(volumes.len(), 1);
    assert_eq!(volumes[0].fields.handshake, 2);
}

#[test]
fn volumes_of_equal_rank_keep_their_order() {
    let candidates = (1..5)
        .map(|h| volume_of(&probe_volume_entity(h, 3, [2.0; 3])))
        .collect();
    let (volumes, _) = collect_volumes(&candidates);
    assert_eq!(
        volumes.iter().map(|v| v.fields.handshake).collect::<Vec<_>>(),
        vec![1, 2, 3, 4]
    );
}

#[test]
fn the_cells_of_a_sample_stay_in_its_volume() {
    assert_eq!(clamp_pair(-3, 0, 7), (0, 1));
    assert_eq!(clamp_pair(5, 3, 3), (3, 3));
    assert_eq!(clamp_pair(2, 0, 7), (2, 3));
    assert_eq!(clamp_pair(7, 0, 7), (7, 7));
    assert_eq!(clamp_pair(i64::MAX, 2, 7), (7, 7));
    assert_eq!(cap_to_atlas(9, 4), 3);
    assert_eq!(cap_to_atlas(2, 4), 2);
}

#[test]
fn the_six_faces_stand_behind_each_other() {
    assert_eq!(face_slice(0, true, 4), 0);
    assert_eq!(face_slice(1, true, 4), 4);
    assert_eq!(face_slice(2, true, 4), 8);
    assert_eq!(face_slice(0, false, 4), 12);
    assert_eq!(face_slice(2, false, 4), 20);
    assert_eq!(shadow_channel_index(2), 2);
    assert_eq!(shadow_channel_index(9), 3);
}

#[test]
fn the_slice_cache_lets_the_oldest_go() {
    let mut order = SliceOrder::new();
    for z in 0..SLICE_CACHE_CAP as u32 {
        assert!(order.touch(z).is_empty());
    }
    assert!(order.touch(0).is_empty());
    assert_eq!(order.touch(9999), vec![1]);
    assert_eq!(order.order.len(), SLICE_CACHE_CAP);
}

#[test]
fn texels_and_channels() {
    assert_eq!(texel_start(24, 1, 1, 2, 3), Some(9));
    assert_eq!(texel_start(11, 1, 1, 2, 3), None);
    assert_eq!(keep_channels(vec![1, 2, 3, 4, 5, 6, 7, 8], 3), vec![1, 2, 3, 5, 6, 7]);
}

/// A stack of decoded slices, `channels` values to the texel.
struct Slices {
    width: u32,
    height: u32,
    depth: u32,
    channels: usize,
    slices: Vec<Vec<u32>>,
}

impl Slices {
    fn of(width: u32, height: u32, channels: usize, texels: &[[u8; 4]]) -> Slices {
        let per_slice = (width * height) as usize;
        let slices: Vec<Vec<u32>> = texels
            .chunks(per_slice)
            .map(|slice| {
                let rgba = slice
                    .iter()
                    .flat_map(|t| t.map(|b| (f32::from(b) / 255.0).to_bits()))
                    .collect();
                keep_channels(rgba, channels)
            })
            .collect();
        Slices { width, height, depth: slices.len() as u32, channels, slices }
    }

    fn texel(&self, x: u32, y: u32, z: u32) -> [f32; 4] {
        let slice = &self.slices[z as usize];
        let at = texel_start(slice.len(), x, y, self.width, self.channels).unwrap();
        let mut out = [0f32; 4];
        for c in 0..self.channels {
            out[c] = f32::from_bits(slice[at + c]);
        }
        out
    }

    fn sample(&self, at: [f32; 3], lo: [u32; 3], hi: [u32; 3]) -> [f32; 4] {
        let pair = |v: f32, lo: u32, hi: u32| {
            let (a, b) = clamp_pair(v.floor() as i64, lo, hi);
            let held = v.clamp(lo as f32, hi.max(lo) as f32);
            (a, b, if b > a { held - a as f32 } else { 0.0 })
        };
        let (x0, x1, fx) = pair(at[0], lo[0], hi[0]);
        let (y0, y1, fy) = pair(at[1], lo[1], hi[1]);
        let (z0, z1, fz) = pair(at[2], lo[2], hi[2]);
        let mut out = [0f32; 4];
        for (x, wx) in [(x0, 1.0 - fx), (x1, fx)] {
            for (y, wy) in [(y0, 1.0 - fy), (y1, fy)] {
                for (z, wz) in [(z0, 1.0 - fz), (z1, fz)] {
                    let t = self.texel(x, y, z);
                    for c in 0..4 {
                        out[c] += t[c] * wx * wy * wz;
                    }
                }
            }
        }
        out
    }
}

/// The light and the sun's visibility at a place in a volume that is the unit cube.
fn sample(
    irradiance: &Slices,
    dlshd: &Slices,
    volume: &ProbeVolume,
    local: [f32; 3],
    normal: [f32; 3],
    channel: Option<usize>,
) -> ([f32; 3], f32) {
    let block = dlshd.depth;
    let size = volume.fields.atlas_size.map(f32::from_bits);
    let offset = volume.fields.atlas_offset.map(f32::from_bits);
    let mut at = [0f32; 3];
    let mut lo = [0u32; 3];
    let mut hi = [0u32; 3];
    let limit = [irradiance.width, irradiance.height, block];
    for c in 0..3 {
        at[c] = local[c] * size[c] - 0.5 + offset[c];
        lo[c] = offset[c].round() as u32;
        let last = (offset[c] + size[c] - 1.0).max(offset[c]).round() as u32;
        hi[c] = cap_to_atlas(last, limit[c]);
    }
    let visibility = match channel {
        Some(ch) => (1.0 - dlshd.sample(at, lo, hi)[shadow_channel_index(ch)]).clamp(0.0, 1.0),
        None => 1.0,
    };
    let mut light = [0f32; 3];
    for axis in 0..3 {
        let n = normal[axis];
        if n * n <= 0.0 {
            continue;
        }
        let base = face_slice(axis as u32, n > 0.0, block);
        let got = irradiance.sample(
            [at[0], at[1], at[2] + base as f32],
            [lo[0], lo[1], lo[2] + base],
            [hi[0], hi[1], hi[2] + base],
        );
        for c in 0..3 {
            light[c] += got[c] * n * n;
        }
    }
    (light, visibility)
}

#[test]
fn sample_ambient_cube_picks_and_blends_faces_by_normal() {
    const PX: [u8; 4] = [255, 0, 0, 255];
    const PY: [u8; 4] = [0, 255, 0, 255];
    const PZ: [u8; 4] = [0, 0, 255, 255];
    const NX: [u8; 4] = [128, 64, 32, 255];
    let irradiance = Slices::of(1, 1, 3, &[PX, PY, PZ, NX, [0, 0, 0, 255], [0, 0, 0, 255]]);
    let dlshd = Slices::of(1, 1, 4, &[[64, 191, 0, 0]]);
    let volume = synthetic_volume(0, 0, [0.0; 3], [1.0; 3], [1.0, 1.0, 1.0], [0.0, 0.0, 0.0]);
    let middle = [0.5, 0.5, 0.5];
    let at = |normal: [f32; 3], channel: Option<usize>| {
        sample(&irradiance, &dlshd, &volume, middle, normal, channel)
    };

    let (e, vis) = at([1.0, 0.0, 0.0], None);
    assert!(
        (e[0] - 1.0).abs() < 1e-4 && e[1].abs() < 1e-4 && e[2].abs() < 1e-4,
        "{e:?}"
    );
    assert_eq!(vis, 1.0, "no baked shadow channel -> always visible");

    let (_, vis0) = at([1.0, 0.0, 0.0], Some(0));
    assert!((vis0 - (1.0 - 64.0 / 255.0)).abs() < 1e-4, "{vis0}");

    let (_, vis1) = at([1.0, 0.0, 0.0], Some(1));
    assert!((vis1 - (1.0 - 191.0 / 255.0)).abs() < 1e-4, "{vis1}");

    let (e, _) = at([-1.0, 0.0, 0.0], None);
    let want_nx = [128.0 / 255.0, 64.0 / 255.0, 32.0 / 255.0];
    for c in 0..3 {
        assert!((e[c] - want_nx[c]).abs() < 1e-4, "{e:?}");
    }

    let (e, _) = at([0.0, 0.6, 0.8], None);
    let want = [0.0, 0.36, 0.64];
    for c in 0..3 {
        assert!((e[c] - want[c]).abs() < 1e-4, "{e:?} want {want:?}");
    }
}

#[test]
fn sample_sub_volume_edge_does_not_read_the_neighbour() {
    const A_FAR_EDGE: [u8; 4] = [10, 0, 0, 255];
    const B_NEAR_EDGE: [u8; 4] = [250, 0, 0, 255];
    // A row of four: the first two belong to one volume, the others to its neighbour.
    let mut texels = vec![[0, 0, 0, 255]; 24];
    texels[1] = A_FAR_EDGE;
    texels[2] = B_NEAR_EDGE;
    let irradiance = Slices::of(4, 1, 3, &texels);
    let dlshd = Slices::of(4, 1, 4, &[[0, 0, 0, 0]; 4]);
    let volume_a = synthetic_volume(0, 0, [0.0; 3], [1.0; 3], [2.0, 1.0, 1.0], [0.0, 0.0, 0.0]);
    let (e, _) = sample(
        &irradiance,
        &dlshd,
        &volume_a,
        [1.0, 0.5, 0.5],
        [1.0, 0.0, 0.0],
        None,
    );
    let want = [A_FAR_EDGE[0] as f32 / 255.0, 0.0, 0.0];
    assert!((e[0] - want[0]).abs() < 1e-4, "{e:?} want {want:?}");
}

#[test]
fn only_entities_of_the_class_are_volumes() {
    let named = |class: &str, name: &str| {
        Entity::new(vec![text("classname", class), text("targetname", name)])
    };
    let lump = |entities: Vec<Entity>| EntityLump {
        name: String::new(),
        child_lumps: vec![],
        entities,
    };
    let lumps = vec![
        lump(vec![named("ENV_combined_light_probe_volume", "a"), named("light_spot", "b")]),
        lump(vec![named("env_combined_light_probe_volume", "c")]),
    ];
    let names: Vec<String> =
        volume_entities(&lumps).iter().map(|e| e.targetname().unwrap().clone()).collect();
    assert_eq!(names, vec!["a", "c"]);
}
