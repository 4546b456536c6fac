//! Cables: the text of their nodes, and the tubes around them.

use s2render::cables::{
    flat_number_tokens, parse_cable, parse_path_nodes, path_node_groups, present_numbers,
    segment_rings, tube_indices, PathNode, ParsedCable, RING_VERTICES, SIDES,
};
use s2render::entity::{Entity, Property, ValueKind};

fn bare(key: &str, kind: ValueKind) -> Property {
    Property {
        key: key.to_string(),
        kind,
        text: None,
        flag: None,
        number: None,
        single: None,
        vector: None,
    }
}

fn text(key: &str, s: &str) -> Property {
    Property { text: Some(s.to_string()), ..bare(key, ValueKind::Text) }
}

fn float(key: &str, f: f32) -> Property {
    Property {
        number: Some(f64::from(f).to_bits()),
        single: Some(f.to_bits()),
        ..bare(key, ValueKind::Float)
    }
}

fn cable_entity(pathnodes: &str) -> Entity {
    Entity::new(vec![
        text("classname", "path_particle_rope_clientside"),
        text("pathnodes", pathnodes),
        float("radius", 0.5),
        float("particle_spacing", 60.0),
    ])
}

fn number(token: &String) -> Option<u32> {
    token.parse::<f32>().ok().map(f32::to_bits)
}

fn nodes_of(s: &str) -> Vec<PathNode> {
    let groups = path_node_groups(s)
        .iter()
        .map(|g| g.iter().map(number).collect())
        .collect();
    parse_path_nodes(&groups)
}

fn flat_numbers(s: &str) -> Vec<f32> {
    let read = flat_number_tokens(s).iter().map(number).collect();
    present_numbers(&read).into_iter().map(f32::from_bits).collect()
}

fn cable_of(e: &Entity) -> Option<ParsedCable> {
    let nodes = nodes_of(e.get_str("pathnodes").unwrap());
    parse_cable(e, nodes, &vec![])
}

fn floats(v: (u32, u32, u32)) -> [f32; 3] {
    [v.0, v.1, v.2].map(f32::from_bits)
}

const MIRAGE_WIRE19: &str = "[\n\t[\n\t\t0.0, 0.0, 0.0, 0.0,\n\t\t0.0, 0.0, -164.0, -50.66667,\n\t\t-16.0,\n\t],\n\t[\n\t\t-492.0, -152.0, -48.0, 164.0,\n\t\t50.66667, 16.0, 0.0, 0.0,\n\t\t0.0,\n\t],\n]";

#[test]
fn parses_the_real_mirage_pathnodes_blob() {
    let nodes = nodes_of(MIRAGE_WIRE19);
    assert_eq!(nodes.len(), 2);
    assert_eq!(floats(nodes[0].pos), [0.0, 0.0, 0.0]);
    assert_eq!(floats(nodes[0].out_tangent), [-164.0, -50.66667, -16.0]);
    assert_eq!(floats(nodes[1].pos), [-492.0, -152.0, -48.0]);
    assert_eq!(floats(nodes[1].in_tangent), [164.0, 50.66667, 16.0]);
}

#[test]
fn flat_number_list_parses_bracketed_csv() {
    assert_eq!(flat_numbers("[ 1.0, 2.0 ]"), vec![1.0, 2.0]);
    assert_eq!(flat_numbers(""), Vec::<f32>::new());
}

#[test]
fn fewer_than_two_nodes_is_rejected() {
    assert!(cable_of(&cable_entity("[[0.0,0.0,0.0,0.0,0.0,0.0,0.0,0.0,0.0]]")).is_none());
}

#[test]
fn a_cable_keeps_its_radius_and_its_spacing() {
    let cable = cable_of(&cable_entity(MIRAGE_WIRE19)).expect("parses");
    assert_eq!(cable.nodes.len(), 2);
    assert_eq!(f32::from_bits(cable.radius), 0.5);
    assert_eq!(f32::from_bits(cable.spacing), 60.0);
    assert_eq!(f32::from_bits(cable.radius_scale_start), 1.0);
    assert_eq!(f32::from_bits(cable.radius_scale_end), 1.0);
}

#[test]
fn a_group_of_another_size_is_no_node() {
    assert_eq!(nodes_of("[[1.0,2.0],[0.0,0.0,0.0,0.0,0.0,0.0,0.0,0.0,0.0]]").len(), 1);
    assert_eq!(nodes_of("nothing").len(), 0);
}

#[test]
fn a_tube_joins_each_ring_to_the_next() {
    let indices = tube_indices(3);
    assert_eq!(indices.len() as u32, 2 * SIDES * 6);
    assert!(indices.iter().all(|&i| i < 3 * RING_VERTICES));
    for triangle in indices.chunks(3) {
        assert!(triangle[0] != triangle[1] && triangle[1] != triangle[2]);
    }
    assert!(tube_indices(1).is_empty());
    assert!(segment_rings(0) >= 1);
}
