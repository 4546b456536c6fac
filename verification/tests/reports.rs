//! The counts of an export, and the order in which they are written.

use s2render::json::{get, Json};
use s2render::order::{precedes, put_in_order, Ranked};
use s2render::report::{LightingClass, Outcome, Report};

fn text_of<'a>(j: &'a Json, key: &str) -> &'a str {
    match get(j, key) {
        Some(Json::Str(s)) => s,
        other => panic!("{key}: {other:?}"),
    }
}

#[test]
fn triangles_add_up_by_material_and_by_light() {
    let mut r = Report::new();
    r.count_draw("materials/a.vmat", 10, LightingClass::Lightmap);
    r.count_draw("materials/b.vmat", 30, LightingClass::Probe);
    r.count_draw("materials/a.vmat", 5, LightingClass::Unlit);
    let c = r.counts;
    assert_eq!(c.triangles, 45);
    assert_eq!(
        (c.lightmap_triangles, c.probe_triangles, c.unlit_triangles),
        (10, 30, 5)
    );
    assert_eq!(r.per_material.iter().map(|(_, n)| n).sum::<u64>(), 45);
    let rows = r.per_material_json();
    assert_eq!(rows.len(), 2);
    assert_eq!(text_of(&rows[0], "material"), "materials/b.vmat");
}

#[test]
fn every_entity_is_settled_once() {
    let mut r = Report::new();
    let none = None;
    r.count_entity("prop", &none, "", Outcome::NoModel);
    r.count_entity("prop", &none, "m", Outcome::Preview);
    r.count_entity("prop", &Some("door".to_string()), "m", Outcome::Hidden);
    r.count_entity("prop", &none, "m", Outcome::NotFound);
    r.count_entity("prop", &none, "m", Outcome::Placed(0));
    r.count_entity("prop", &none, "m", Outcome::Placed(12));
    let s = r.class("prop");
    assert_eq!((s.total, s.with_model, s.drawn, s.triangles), (6, 5, 1, 12));
    assert_eq!(s.preview + s.hidden + s.not_found + s.no_mesh + s.drawn, s.with_model);
    assert_eq!(r.hidden_entities.len(), 2);
    assert_eq!(text_of(&r.hidden_entities[1], "targetname"), "door");
    assert_eq!(r.entities_json().len(), 1);
    assert_eq!(r.class("other").total, 0);
}

#[test]
fn a_scene_object_is_placed_where_it_draws() {
    let mut r = Report::new();
    let before = r.begin_scene_object();
    r.end_scene_object(before);
    let before = r.begin_scene_object();
    r.count_draw("m", 1, LightingClass::Unlit);
    r.end_scene_object(before);
    assert_eq!((r.counts.scene_objects_total, r.counts.scene_objects_placed), (2, 1));
    r.count_aggregate(3);
    r.count_fragment();
    r.count_fallback();
    assert_eq!((r.counts.aggregates_total, r.counts.fragments_total), (1, 3));
    assert_eq!((r.counts.fragments_placed, r.counts.aggregates_fallback), (1, 1));
}

#[test]
fn names_are_in_order_of_their_letters() {
    assert!(precedes("a", "b"));
    assert!(precedes("a", "aa"));
    assert!(precedes("Z", "a"));
    assert!(!precedes("a", "a"));
    assert!(precedes("", "a"));
}

#[test]
fn the_most_frequent_comes_first() {
    let item = |count: u64, name: &str, index: usize| Ranked {
        count,
        name: name.to_string(),
        index,
    };
    let sorted = put_in_order(vec![item(1, "b", 0), item(5, "z", 1), item(1, "a", 2), item(1, "a", 3)]);
    assert_eq!(sorted.iter().map(|r| r.index).collect::<Vec<_>>(), vec![1, 2, 3, 0]);
}
