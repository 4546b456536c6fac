//! Entities: what is drawn, in which tint, with which skin; and what is found among them.

use s2render::entity::{
    entity_num, entity_tint, find_entity, find_entity_by_targetname, flatten_entities, should_render,
    skin_name, skin_remap, Entity, EntityLump, EntityTint, Property, ValueKind,
};
use s2render::lumps::{
    entity_lump_path, entity_step, find_baked_shadow_channel, find_sun, node_name, EntityStep,
    LumpWalk,
};
use s2render::report::Outcome;
use s2render::{MaterialGroup, Model};

fn bare(key: &str, kind: ValueKind) -> Property {
    Property {
        key: key.to_string(),
        kind,
        text: None,
        flag: None,
        number: None,
        single: None,
        vector: None,
    }
}

fn flag(key: &str, b: bool) -> Property {
    Property { flag: Some(b), ..bare(key, ValueKind::Truth) }
}

fn whole(key: &str, i: i64) -> Property {
    Property {
        flag: Some(i != 0),
        number: Some((i as f64).to_bits()),
        single: Some((i as f32).to_bits()),
        ..bare(key, ValueKind::Integer)
    }
}

fn float(key: &str, f: f64) -> Property {
    Property {
        number: Some(f.to_bits()),
        single: Some((f as f32).to_bits()),
        ..bare(key, ValueKind::Float)
    }
}

fn text(key: &str, s: &str) -> Property {
    Property {
        text: Some(s.to_string()),
        number: s.trim().parse::<f64>().ok().map(f64::to_bits),
        single: s.trim().parse::<f32>().ok().map(f32::to_bits),
        ..bare(key, ValueKind::Text)
    }
}

fn vector(key: &str, v: [f32; 3]) -> Property {
    Property { vector: Some(v.map(f32::to_bits)), ..bare(key, ValueKind::Vector) }
}

fn entity_with(properties: Vec<Property>) -> Entity {
    Entity::new(properties)
}

fn lump(entities: Vec<Entity>) -> EntityLump {
    EntityLump { name: String::new(), child_lumps: Vec::new(), entities }
}

/// The tint as four factors.
fn factors(t: &EntityTint) -> [f32; 4] {
    let scale = |bits: u32, bytes: bool| {
        let f = f32::from_bits(bits);
        if bytes {
            f / 255.0
        } else {
            f
        }
    };
    [
        scale(t.color[0], t.color_is_bytes),
        scale(t.color[1], t.color_is_bytes),
        scale(t.color[2], t.color_is_bytes),
        scale(t.amount, t.amount_is_bytes),
    ]
}

#[test]
fn startdisabled_hides() {
    let e = entity_with(vec![flag("startdisabled", true)]);
    assert!(!should_render(&e));
}

#[test]
fn enabled_false_hides() {
    let e = entity_with(vec![flag("enabled", false)]);
    assert!(!should_render(&e));
}

#[test]
fn renderamt_zero_hides() {
    let e = entity_with(vec![whole("renderamt", 0)]);
    assert!(!should_render(&e));
    assert!(!should_render(&entity_with(vec![float("renderamt", -0.0)])));
    assert!(should_render(&entity_with(vec![float("renderamt", 0.5)])));
}

#[test]
fn rendermode_10_or_krendernone_hides() {
    let numeric = entity_with(vec![text("rendermode", "10")]);
    assert!(!should_render(&numeric));
    let named = entity_with(vec![text("rendermode", "kRenderNone")]);
    assert!(!should_render(&named));
    let normal = entity_with(vec![text("rendermode", "kRenderNormal")]);
    assert!(should_render(&normal));
    let zero = entity_with(vec![text("rendermode", "0")]);
    assert!(should_render(&zero));
}

#[test]
fn default_entity_renders() {
    assert!(should_render(&entity_with(vec![])));
}

#[test]
fn tint_defaults_to_white() {
    assert_eq!(factors(&entity_tint(&entity_with(vec![]))), [1.0, 1.0, 1.0, 1.0]);
}

#[test]
fn tint_rescales_byte_range_rendercolor_and_renderamt() {
    let e = entity_with(vec![
        vector("rendercolor", [171.0, 254.0, 243.0]),
        whole("renderamt", 128),
    ]);
    let t = factors(&entity_tint(&e));
    assert!((t[0] - 171.0 / 255.0).abs() < 1e-5);
    assert!((t[1] - 254.0 / 255.0).abs() < 1e-5);
    assert!((t[2] - 243.0 / 255.0).abs() < 1e-5);
    assert!((t[3] - 128.0 / 255.0).abs() < 1e-5);
}

#[test]
fn tint_up_to_one_and_a_half_is_a_factor() {
    let e = entity_with(vec![
        vector("rendercolor", [1.5, 0.25, 0.5]),
        float("renderamt", 1.5),
    ]);
    assert_eq!(factors(&entity_tint(&e)), [1.5, 0.25, 0.5, 1.5]);
}

#[test]
fn skin_name_normalizes_zero_and_default() {
    assert_eq!(skin_name(&entity_with(vec![text("skin", "0")])), None);
    assert_eq!(skin_name(&entity_with(vec![text("skin", "default")])), None);
    assert_eq!(
        skin_name(&entity_with(vec![text("skin", "1")])).map(String::as_str),
        Some("1")
    );
    assert_eq!(skin_name(&entity_with(vec![])), None);
}

fn skinned() -> Model {
    Model {
        material_groups: vec![
            MaterialGroup {
                name: "default".to_string(),
                materials: vec![
                    "materials/tv_off.vmat".to_string(),
                    "materials/frame.vmat".to_string(),
                ],
            },
            MaterialGroup {
                name: "1".to_string(),
                materials: vec![
                    "materials/tv_channel1.vmat".to_string(),
                    "materials/frame.vmat".to_string(),
                ],
            },
        ],
        ..Default::default()
    }
}

#[test]
fn skin_remap_maps_by_index_not_first_material() {
    let map = skin_remap(&skinned(), "1").expect("remap");
    assert_eq!(
        map.get("materials/tv_off.vmat").map(String::as_str),
        Some("materials/tv_channel1.vmat")
    );
    // The material that both groups share maps to itself.
    assert_eq!(
        map.get("materials/frame.vmat").map(String::as_str),
        Some("materials/frame.vmat")
    );
    assert_eq!(map.get("materials/other.vmat"), None);
}

#[test]
fn skin_remap_none_without_default_or_named_group() {
    let model = Model::default();
    assert!(skin_remap(&model, "1").is_none());
    assert!(skin_remap(&skinned(), "2").is_none());
}

#[test]
fn baked_shadow_channel_reads_bakedshadowindex_with_bakelightindex_fallback() {
    let class = || text("classname", "light_environment");
    let of = |properties: Vec<Property>| {
        find_baked_shadow_channel(&vec![lump(vec![entity_with(properties)])])
    };
    assert_eq!(of(vec![class(), whole("bakedshadowindex", 2)]), Some(2));
    assert_eq!(of(vec![class(), whole("bakelightindex", 1)]), Some(1));
    assert_eq!(of(vec![class(), whole("bakedshadowindex", 4)]), None);
    assert_eq!(of(vec![class()]), None);
    assert_eq!(of(vec![class(), whole("bakedshadowindex", -1)]), None);
}

#[test]
fn entities_are_found_over_all_lists_in_order() {
    let named = |class: &str, name: &str| {
        entity_with(vec![text("classname", class), text("targetname", name)])
    };
    let lumps = vec![
        lump(vec![named("info_target", "a")]),
        lump(vec![named("env_sky", "b"), named("ENV_SKY", "c")]),
    ];
    assert_eq!(flatten_entities(&lumps).len(), 3);
    let found = find_entity(&lumps, "env_sky").unwrap();
    assert_eq!(found.targetname().map(String::as_str), Some("b"));
    let found = find_entity_by_targetname(&lumps, "c").unwrap();
    assert_eq!(found.classname(), "ENV_SKY");
    assert!(find_entity(&lumps, "light_environment").is_none());
    assert!(find_entity_by_targetname(&lumps, "d").is_none());
}

#[test]
fn the_sun_is_the_first_light_environment() {
    let mut sun = entity_with(vec![
        text("classname", "light_environment"),
        vector("color", [255.0, 200.0, 100.0]),
        float("brightness", 2.5),
    ]);
    sun.angles = [50f32, 30.0, 0.0].map(f32::to_bits);
    let fields = find_sun(&vec![lump(vec![sun])]).unwrap();
    assert_eq!(fields.angles.map(f32::from_bits), [50.0, 30.0, 0.0]);
    assert_eq!(fields.color.unwrap().map(f32::from_bits), [255.0, 200.0, 100.0]);
    assert_eq!(f32::from_bits(fields.brightness), 2.5);
    assert_eq!(f32::from_bits(fields.brightness_scale), 1.0);
    assert!(find_sun(&vec![lump(vec![])]).is_none());
}

#[test]
fn what_becomes_of_an_entity() {
    assert!(matches!(entity_step(&entity_with(vec![])), EntityStep::Nothing));
    let with = |mut more: Vec<Property>| {
        more.push(text("classname", "prop_dynamic"));
        entity_step(&entity_with(more))
    };
    assert!(matches!(with(vec![]), EntityStep::Leave(Outcome::NoModel)));
    assert!(matches!(with(vec![text("model", "")]), EntityStep::Leave(Outcome::NoModel)));
    match with(vec![text("model", "models/crate.vmdl")]) {
        EntityStep::Place(path) => assert_eq!(path, "models/crate.vmdl_c"),
        other => panic!("{other:?}"),
    }
    assert!(matches!(
        with(vec![text("model", "models/crate.vmdl"), flag("startdisabled", true)]),
        EntityStep::Leave(Outcome::Hidden)
    ));
    let preview = entity_with(vec![
        text("classname", "csgo_player_previewmodel"),
        text("model", "models/player.vmdl"),
    ]);
    assert!(matches!(entity_step(&preview), EntityStep::Leave(Outcome::Preview)));
}

#[test]
fn a_node_is_named_after_its_entity() {
    let named = entity_with(vec![
        text("classname", "prop_dynamic"),
        text("targetname", "door"),
    ]);
    assert_eq!(node_name(&named), "door");
    assert_eq!(node_name(&entity_with(vec![text("classname", "prop_static")])), "prop_static");
}

fn child_of(name: &str, children: &[&str]) -> EntityLump {
    EntityLump {
        name: name.to_string(),
        child_lumps: children.iter().map(|s| s.to_string()).collect(),
        entities: vec![],
    }
}

#[test]
fn listed_lumps_are_read_with_their_children_once() {
    let listed = vec!["maps/a/default_ents.vents".to_string()];
    let mut walk = LumpWalk::new(&listed, vec!["maps/a/scanned.vents_c".to_string()]);
    let mut asked: Vec<String> = Vec::new();
    while let Some(path) = walk.next() {
        let path = path.clone();
        if path == entity_lump_path("maps/a/default_ents.vents") {
            let child = "maps/a/child.vents";
            walk.take(child_of("default", &[child, child]));
        } else {
            walk.take(child_of("child", &["maps/a/default_ents.vents"]));
        }
        asked.push(path);
    }
    let (lumps, failures) = walk.finish();
    assert_eq!(lumps.len(), 2);
    assert_eq!(failures.len(), 0);
    assert_eq!(
        asked,
        vec![
            entity_lump_path("maps/a/default_ents.vents"),
            entity_lump_path("maps/a/child.vents"),
        ]
    );
}

#[test]
fn a_listed_lump_that_fails_makes_every_lump_be_read() {
    let listed = vec!["maps/a/default_ents.vents".to_string()];
    let scan = vec!["maps/a/one.vents_c".to_string(), "maps/a/two.vents_c".to_string()];
    let mut walk = LumpWalk::new(&listed, scan);
    walk.fail("maps/a/default_ents.vents_c: not found".to_string());
    let mut read = 0;
    while walk.next().is_some() {
        walk.take(child_of("x", &[]));
        read += 1;
    }
    let (lumps, failures) = walk.finish();
    assert_eq!(read, 2);
    assert_eq!(lumps.len(), 2);
    assert!(failures.iter().any(|f| f.contains("not found")), "{failures:?}");
}

#[test]
fn truth_values_and_vectors_are_no_numbers() {
    let ten = 10.0f64.to_bits();
    let stored = |kind: ValueKind| Property { number: Some(ten), ..bare("rendermode", kind) };
    let numeric = [
        ValueKind::Integer,
        ValueKind::Unsigned,
        ValueKind::Float,
        ValueKind::Text,
        ValueKind::Other,
    ];
    for kind in numeric {
        assert_eq!(entity_num(Some(&stored(kind))), Some(ten), "{kind:?}");
    }
    assert_eq!(entity_num(Some(&stored(ValueKind::Truth))), None);
    assert_eq!(entity_num(Some(&stored(ValueKind::Vector))), None);
    assert_eq!(entity_num(Some(&bare("rendermode", ValueKind::Text))), None);
    assert_eq!(entity_num(None), None);
}

#[test]
fn the_first_sun_stays_whatever_lumps_follow() {
    let sun = |angle: f32| Entity {
        angles: [angle.to_bits(); 3],
        ..Entity::new(vec![text("classname", "light_environment")])
    };
    let other = || Entity::new(vec![text("classname", "light_spot")]);
    let lumps = vec![lump(vec![other()]), lump(vec![sun(1.0), sun(2.0)]), lump(vec![sun(3.0)])];
    assert_eq!(find_sun(&lumps).unwrap().angles, [1.0f32.to_bits(); 3]);
}
