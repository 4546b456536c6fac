//! The world and its nodes: scene objects, which place a model, and aggregates, which place the
//! fragments of combined geometry.

use crate::bits::{f32_is_zero, F32_255, F32_ONE, F32_ZERO};
use crate::error::MeshError;
use crate::kv::Value;
use crate::model::lowest_level_of;
use crate::text::{concat, forward_slashes, same, split, trim};
use std::collections::HashMap;
use vstd::prelude::*;

verus! {

/// Three rows of four, row after row, as the bits of singles: a rotation with scale, and the
/// translation in the last column.
pub type Transform = [u32; 12];

/// The transform that moves nothing.
pub const IDENTITY_TRANSFORM: Transform = [
    0x3F80_0000,
    0,
    0,
    0,
    0,
    0x3F80_0000,
    0,
    0,
    0,
    0,
    0x3F80_0000,
    0,
];

/// Cell `j` of row `i` of a nested transform; a cell that holds no number is that of the identity.
pub open spec fn nested_cell(v: Value, i: int, j: int) -> u32 {
    let default = if i == j {
        F32_ONE
    } else {
        F32_ZERO
    };
    match crate::kv::items_of(v) {
        Some(rows) => if i < rows.len() {
            match crate::kv::items_of(rows[i]) {
                Some(cols) => if j < cols.len() {
                    match crate::kv::single_of(cols[j]) {
                        Some(f) => f,
                        None => default,
                    }
                } else {
                    default
                },
                None => default,
            }
        } else {
            default
        },
        None => default,
    }
}

/// A transform of three rows.
pub open spec fn nested_transform(v: Value) -> Seq<u32> {
    Seq::new(12, |k: int| nested_cell(v, k / 4, k % 4))
}

/// Reads one cell of a nested transform.
fn read_cell(v: &Value, i: usize, j: usize) -> (r: u32)
    ensures
        r == nested_cell(*v, i as int, j as int),
{
    let default: u32 = if i == j {
        F32_ONE
    } else {
        F32_ZERO
    };
    match v.as_array() {
        Some(rows) => {
            if i < rows.len() {
                match rows[i].as_array() {
                    Some(cols) => {
                        if j < cols.len() {
                            match cols[j].as_f32() {
                                Some(f) => f,
                                None => default,
                            }
                        } else {
                            default
                        }
                    },
                    None => default,
                }
            } else {
                default
            }
        },
        None => default,
    }
}

/// Reads a transform of three rows.
pub fn parse_nested_transform(v: &Value) -> (r: Transform)
    ensures
        r@ == nested_transform(*v),
        forall|i: int, j: int|
            0 <= i < 3 && 0 <= j < 4 ==> #[trigger] r@[4 * i + j] == #[trigger] nested_cell(
                *v,
                i,
                j,
            ),
{
    let t: Transform = [
        read_cell(v, 0, 0),
        read_cell(v, 0, 1),
        read_cell(v, 0, 2),
        read_cell(v, 0, 3),
        read_cell(v, 1, 0),
        read_cell(v, 1, 1),
        read_cell(v, 1, 2),
        read_cell(v, 1, 3),
        read_cell(v, 2, 0),
        read_cell(v, 2, 1),
        read_cell(v, 2, 2),
        read_cell(v, 2, 3),
    ];
    assert(t@ =~= nested_transform(*v));
    t
}

/// The single in an item; `default` where the item holds no number.
pub open spec fn single_or(items: Seq<Value>, i: int, default: u32) -> u32 {
    match crate::kv::single_of(items[i]) {
        Some(f) => f,
        None => default,
    }
}

/// Reads the single in an item.
fn read_single_or(items: &Vec<Value>, i: usize, default: u32) -> (r: u32)
    requires
        i < items@.len(),
    ensures
        r == single_or(items@, i as int, default),
{
    match items[i].as_f32() {
        Some(f) => f,
        None => default,
    }
}

/// A transform of twelve numbers in one list: the translation stands at 3, 7 and 11.
pub open spec fn flat_transform(v: Value) -> Option<Seq<u32>> {
    match crate::kv::items_of(v) {
        Some(items) => if items.len() < 12 {
            None
        } else {
            Some(Seq::new(12, |k: int| single_or(items, k, F32_ZERO)))
        },
        None => None,
    }
}

/// The sequence behind an optional transform.
pub open spec fn opt_transform(t: Option<Transform>) -> Option<Seq<u32>> {
    match t {
        Some(t) => Some(t@),
        None => None,
    }
}

/// Reads a transform of twelve numbers in one list.
pub fn parse_flat_transform(v: &Value) -> (r: Option<Transform>)
    ensures
        opt_transform(r) == flat_transform(*v),
{
    match v.as_array() {
        Some(a) => {
            if a.len() < 12 {
                return None;
            }
            let t: Transform = [
                read_single_or(a, 0, F32_ZERO),
                read_single_or(a, 1, F32_ZERO),
                read_single_or(a, 2, F32_ZERO),
                read_single_or(a, 3, F32_ZERO),
                read_single_or(a, 4, F32_ZERO),
                read_single_or(a, 5, F32_ZERO),
                read_single_or(a, 6, F32_ZERO),
                read_single_or(a, 7, F32_ZERO),
                read_single_or(a, 8, F32_ZERO),
                read_single_or(a, 9, F32_ZERO),
                read_single_or(a, 10, F32_ZERO),
                read_single_or(a, 11, F32_ZERO),
            ];
            assert(t@ =~= Seq::new(12, |k: int| single_or(a@, k, F32_ZERO)));
            Some(t)
        },
        None => None,
    }
}

/// The bit of an object type flag; none for a name that is not known.
pub open spec fn bit_of_name(name: Seq<char>) -> i64 {
    let t = crate::text::trimmed(name);
    if t == "OBJECT_TYPE_DECAL"@ {
        0x4
    } else if t == "OBJECT_TYPE_MODEL"@ {
        0x8
    } else if t == "OBJECT_TYPE_BLOCK_LIGHT"@ {
        0x10
    } else if t == "OBJECT_TYPE_NO_SHADOWS"@ {
        0x20
    } else if t == "OBJECT_TYPE_RENDER_TO_CUBEMAPS"@ {
        0x400
    } else if t == "OBJECT_TYPE_OVERLAY"@ {
        0x2000
    } else {
        0
    }
}

/// The bit of an object type flag.
pub fn flag_name_bit(name: &str) -> (r: i64)
    ensures
        r == bit_of_name(name@),
{
    let t: String = trim(name);
    let t: &str = t.as_str();
    if same(t, "OBJECT_TYPE_DECAL") {
        0x4
    } else if same(t, "OBJECT_TYPE_MODEL") {
        0x8
    } else if same(t, "OBJECT_TYPE_BLOCK_LIGHT") {
        0x10
    } else if same(t, "OBJECT_TYPE_NO_SHADOWS") {
        0x20
    } else if same(t, "OBJECT_TYPE_RENDER_TO_CUBEMAPS") {
        0x400
    } else if same(t, "OBJECT_TYPE_OVERLAY") {
        0x2000
    } else {
        0
    }
}

/// The bits of several names.
pub open spec fn bits_of_names(names: Seq<Seq<char>>) -> i64
    decreases names.len(),
{
    if names.len() == 0 {
        0
    } else {
        bits_of_names(names.drop_last()) | bit_of_name(names.last())
    }
}

/// Object type flags, which are written as a number or as names with bars between them.
pub open spec fn object_flags(v: Option<Value>) -> i64 {
    match v {
        Some(v) => match crate::kv::signed_of(v) {
            Some(i) => i,
            None => match crate::kv::string_in(v) {
                Some(s) => bits_of_names(crate::text::pieces(s@, '|')),
                None => 0,
            },
        },
        None => 0,
    }
}

/// An optional reference as an optional value.
pub open spec fn referred<T>(v: Option<&T>) -> Option<T> {
    match v {
        Some(v) => Some(*v),
        None => None,
    }
}

/// Reads object type flags.
pub fn parse_object_type_flags(v: Option<&Value>) -> (r: i64)
    ensures
        r == object_flags(referred(v)),
{
    let v: &Value = match v {
        Some(v) => v,
        None => {
            return 0;
        },
    };
    match v.as_i64() {
        Some(i) => {
            return i;
        },
        None => {},
    }
    match v.as_str() {
        Some(s) => {
            let names: Vec<String> = split(s.as_str(), '|');
            let ghost all = crate::text::texts(names@);
            let mut bits: i64 = 0;
            let mut i: usize = 0;
            while i < names.len()
                invariant
                    i <= names@.len(),
                    all == crate::text::texts(names@),
                    bits == bits_of_names(all.take(i as int)),
                decreases names@.len() - i,
            {
                proof {
                    assert(all.take(i + 1).drop_last() =~= all.take(i as int));
                    assert(all.take(i + 1).last() == names@[i as int]@);
                }
                bits = bits | flag_name_bit(names[i].as_str());
                i += 1;
            }
            assert(all.take(i as int) =~= all);
            bits
        },
        None => 0,
    }
}

/// Whether flags mark an overlay.
pub open spec fn marks_overlay(flags: i64) -> bool {
    flags & 0x2000 != 0
}

/// Whether flags mark an overlay.
pub fn is_overlay_flags(flags: i64) -> (r: bool)
    ensures
        r == marks_overlay(flags),
{
    flags & 0x2000 != 0
}

/// The root of a world: its entity lumps and nodes, and what its lightmaps are.
#[derive(Debug, Clone)]
pub struct WorldDoc {
    pub entity_lumps: Vec<String>,
    pub world_node_prefixes: Vec<String>,
    /// The scale of the lightmap coordinates, as the bits of two singles.
    pub lightmap_uv_scale: [u32; 2],
    pub light_maps: Vec<String>,
}

/// A [`WorldDoc`] as plain values.
pub struct WorldView {
    pub entity_lumps: Seq<Seq<char>>,
    pub world_node_prefixes: Seq<Seq<char>>,
    pub lightmap_uv_scale: Seq<u32>,
    pub light_maps: Seq<Seq<char>>,
}

impl View for WorldDoc {
    type V = WorldView;

    open spec fn view(&self) -> WorldView {
        WorldView {
            entity_lumps: crate::text::texts(self.entity_lumps@),
            world_node_prefixes: crate::text::texts(self.world_node_prefixes@),
            lightmap_uv_scale: self.lightmap_uv_scale@,
            light_maps: crate::text::texts(self.light_maps@),
        }
    }
}

/// The text in lower case, by the rules of Unicode.
pub uninterp spec fn lowercased(s: Seq<char>) -> Seq<char>;

/// Whether every character is an ASCII one.
pub open spec fn is_ascii_text(s: Seq<char>) -> bool {
    forall|i: int| 0 <= i < s.len() ==> (#[trigger] s[i] as u32) < 128
}

/// `str::to_lowercase` of the standard library. What it gives depends on the text alone and is
/// named [`lowercased`]; of ASCII text it is the text with each letter in lower case.
#[verifier::external_body]
fn to_lowercase(s: &str) -> (r: String)
    ensures
        r@ == lowercased(s@),
        is_ascii_text(s@) ==> r@ == crate::text::ascii_lowered(s@),
{
    s.to_lowercase()
}

/// The path of the resource of a world node.
pub fn world_node_path(prefix: &str) -> (r: String)
    ensures
        r@ == lowercased(crate::text::forward_slashed(prefix@)) + ".vwnod_c"@,
        is_ascii_text(crate::text::forward_slashed(prefix@)) ==> r@ == crate::text::ascii_lowered(
            crate::text::forward_slashed(prefix@),
        ) + ".vwnod_c"@,
{
    let slashed: String = forward_slashes(prefix);
    let lower: String = to_lowercase(slashed.as_str());
    concat(lower.as_str(), ".vwnod_c")
}

/// The prefixes among the nodes of a world.
pub open spec fn prefixes_of(items: Seq<Value>) -> Seq<Seq<char>>
    decreases items.len(),
{
    if items.len() == 0 {
        Seq::empty()
    } else {
        match crate::kv::string_at(items.last(), "m_worldNodePrefix"@) {
            Some(s) => prefixes_of(items.drop_last()).push(s@),
            None => prefixes_of(items.drop_last()),
        }
    }
}

/// The lightmap scale of a world; 1 by 1 where it gives none.
pub open spec fn uv_scale_of(root: Value) -> Seq<u32> {
    match crate::kv::items_at(root, "m_vLightmapUvScale"@) {
        Some(a) => if a.len() >= 2 {
            seq![single_or(a, 0, F32_ONE), single_or(a, 1, F32_ONE)]
        } else {
            seq![F32_ONE, F32_ONE]
        },
        None => seq![F32_ONE, F32_ONE],
    }
}

/// The world that a root describes.
pub open spec fn world_of(root: Value) -> WorldView {
    WorldView {
        entity_lumps: crate::text::texts(crate::kv::strings_at(root, "m_entityLumps"@)),
        world_node_prefixes: prefixes_of(crate::model::list_at(root, "m_worldNodes"@)),
        lightmap_uv_scale: uv_scale_of(root),
        light_maps: crate::text::texts(crate::kv::strings_at(root, "m_lightMaps"@)),
    }
}

/// Reads the lightmap scale of a world.
fn read_uv_scale(root: &Value) -> (r: [u32; 2])
    ensures
        r@ == uv_scale_of(*root),
{
    let scale: [u32; 2] = match root.get_array("m_vLightmapUvScale") {
        Some(a) => {
            if a.len() >= 2 {
                [read_single_or(a, 0, F32_ONE), read_single_or(a, 1, F32_ONE)]
            } else {
                [F32_ONE, F32_ONE]
            }
        },
        None => [F32_ONE, F32_ONE],
    };
    assert(scale@ =~= uv_scale_of(*root));
    scale
}

/// Decodes the root of a world.
pub fn decode_world(root: &Value) -> (r: WorldDoc)
    ensures
        r@ == world_of(*root),
{
    let mut prefixes: Vec<String> = Vec::new();
    assert(crate::text::texts(prefixes@) =~= Seq::<Seq<char>>::empty());
    match root.get_array("m_worldNodes") {
        Some(items) => {
            let mut i: usize = 0;
            while i < items.len()
                invariant
                    i <= items@.len(),
                    crate::text::texts(prefixes@) == prefixes_of(items@.take(i as int)),
                decreases items@.len() - i,
            {
                proof {
                    assert(items@.take(i + 1).drop_last() =~= items@.take(i as int));
                    assert(items@.take(i + 1).last() == items@[i as int]);
                }
                match items[i].get_string("m_worldNodePrefix") {
                    Some(s) => {
                        proof {
                            crate::text::lemma_texts_push(prefixes@, s);
                        }
                        prefixes.push(s);
                    },
                    None => {},
                }
                i += 1;
            }
            assert(items@.take(i as int) =~= items@);
        },
        None => {},
    }
    WorldDoc {
        entity_lumps: root.get_strings("m_entityLumps"),
        world_node_prefixes: prefixes,
        lightmap_uv_scale: read_uv_scale(root),
        light_maps: root.get_strings("m_lightMaps"),
    }
}

/// One scene object: a model or a mesh, placed once.
#[derive(Debug, Clone)]
pub struct SceneObjectRaw {
    /// The model to place.
    pub renderable_model: Option<String>,
    /// The mesh to place, where no model is named.
    pub renderable: Option<String>,
    pub transform: Transform,
    /// The tint, as the bits of four singles; white where it is absent or black.
    pub tint: [u32; 4],
    pub is_overlay: bool,
    /// The order among overlays on one surface; 0 where there is none.
    pub overlay_render_order: i64,
    pub layer_index: Option<usize>,
    /// The probe volume that the object was bound to; 0 where it was bound to none.
    pub light_probe_volume_handshake: i64,
}

/// A [`SceneObjectRaw`] as plain values.
pub struct SceneObjectView {
    pub renderable_model: Option<Seq<char>>,
    pub renderable: Option<Seq<char>>,
    pub transform: Seq<u32>,
    pub tint: Seq<u32>,
    pub is_overlay: bool,
    pub overlay_render_order: i64,
    pub layer_index: Option<usize>,
    pub light_probe_volume_handshake: i64,
}

impl View for SceneObjectRaw {
    type V = SceneObjectView;

    open spec fn view(&self) -> SceneObjectView {
        SceneObjectView {
            renderable_model: crate::text::opt_text(self.renderable_model),
            renderable: crate::text::opt_text(self.renderable),
            transform: self.transform@,
            tint: self.tint@,
            is_overlay: self.is_overlay,
            overlay_render_order: self.overlay_render_order,
            layer_index: self.layer_index,
            light_probe_volume_handshake: self.light_probe_volume_handshake,
        }
    }
}

/// One fragment of an aggregate.
#[derive(Debug, Clone)]
pub struct FragmentRaw {
    pub draw_call_index: i64,
    pub has_transform: bool,
    /// The tint from 0 to 255, as the bits of three singles.
    pub tint: Option<[u32; 3]>,
    pub lod_group_mask: i64,
    pub lod_setup_index: i64,
    /// The probe volume that the fragment was bound to; 0 where it was bound to none.
    pub light_probe_volume_handshake: i64,
}

/// A [`FragmentRaw`] as plain values.
pub struct FragmentView {
    pub draw_call_index: i64,
    pub has_transform: bool,
    pub tint: Option<Seq<u32>>,
    pub lod_group_mask: i64,
    pub lod_setup_index: i64,
    pub light_probe_volume_handshake: i64,
}

impl View for FragmentRaw {
    type V = FragmentView;

    open spec fn view(&self) -> FragmentView {
        FragmentView {
            draw_call_index: self.draw_call_index,
            has_transform: self.has_transform,
            tint: crate::mesh::triple(self.tint),
            lod_group_mask: self.lod_group_mask,
            lod_setup_index: self.lod_setup_index,
            light_probe_volume_handshake: self.light_probe_volume_handshake,
        }
    }
}

/// One aggregate: combined geometry, placed fragment by fragment.
#[derive(Debug, Clone)]
pub struct AggregateRaw {
    pub renderable_model: Option<String>,
    pub fragments: Vec<FragmentRaw>,
    /// The transforms of the fragments that have one, in order.
    pub fragment_transforms: Vec<Transform>,
}

/// An [`AggregateRaw`] as plain values.
pub struct AggregateView {
    pub renderable_model: Option<Seq<char>>,
    pub fragments: Seq<FragmentView>,
    pub fragment_transforms: Seq<Seq<u32>>,
}

/// The views of a list of fragments.
pub open spec fn fragment_views(v: Seq<FragmentRaw>) -> Seq<FragmentView> {
    Seq::new(v.len(), |i: int| v[i]@)
}

/// The sequences behind a list of transforms.
pub open spec fn transform_views(v: Seq<Transform>) -> Seq<Seq<u32>> {
    Seq::new(v.len(), |i: int| v[i]@)
}

impl View for AggregateRaw {
    type V = AggregateView;

    open spec fn view(&self) -> AggregateView {
        AggregateView {
            renderable_model: crate::text::opt_text(self.renderable_model),
            fragments: fragment_views(self.fragments@),
            fragment_transforms: transform_views(self.fragment_transforms@),
        }
    }
}

/// A decoded world node.
#[derive(Debug, Clone)]
pub struct WorldNodeRaw {
    pub scene_objects: Vec<SceneObjectRaw>,
    pub aggregates: Vec<AggregateRaw>,
    pub layer_names: Vec<String>,
}

/// A [`WorldNodeRaw`] as plain values.
pub struct WorldNodeView {
    pub scene_objects: Seq<SceneObjectView>,
    pub aggregates: Seq<AggregateView>,
    pub layer_names: Seq<Seq<char>>,
}

/// The views of a list of scene objects.
pub open spec fn object_views(v: Seq<SceneObjectRaw>) -> Seq<SceneObjectView> {
    Seq::new(v.len(), |i: int| v[i]@)
}

/// The views of a list of aggregates.
pub open spec fn aggregate_views(v: Seq<AggregateRaw>) -> Seq<AggregateView> {
    Seq::new(v.len(), |i: int| v[i]@)
}

impl View for WorldNodeRaw {
    type V = WorldNodeView;

    open spec fn view(&self) -> WorldNodeView {
        WorldNodeView {
            scene_objects: object_views(self.scene_objects@),
            aggregates: aggregate_views(self.aggregates@),
            layer_names: crate::text::texts(self.layer_names@),
        }
    }
}

/// White.
pub open spec fn white() -> Seq<u32> {
    seq![F32_ONE, F32_ONE, F32_ONE, F32_ONE]
}

/// A tint from 0 to 1. One that is absent, too short or black is white.
pub open spec fn tint01(v: Option<Value>) -> Seq<u32> {
    match v {
        Some(v) => match crate::kv::items_of(v) {
            Some(a) => if a.len() < 3 {
                white()
            } else {
                let r = single_or(a, 0, F32_ZERO);
                let g = single_or(a, 1, F32_ZERO);
                let b = single_or(a, 2, F32_ZERO);
                let alpha = if a.len() > 3 {
                    single_or(a, 3, F32_ONE)
                } else {
                    F32_ONE
                };
                if crate::bits::f32_magnitude(r) == 0 && crate::bits::f32_magnitude(g) == 0
                    && crate::bits::f32_magnitude(b) == 0 {
                    white()
                } else {
                    seq![r, g, b, alpha]
                }
            },
            None => white(),
        },
        None => white(),
    }
}

/// Reads a tint from 0 to 1.
pub fn parse_tint01(v: Option<&Value>) -> (r: [u32; 4])
    ensures
        r@ == tint01(referred(v)),
{
    let plain: [u32; 4] = [F32_ONE, F32_ONE, F32_ONE, F32_ONE];
    assert(plain@ =~= white());
    let v: &Value = match v {
        Some(v) => v,
        None => {
            return plain;
        },
    };
    match v.as_array() {
        Some(a) => {
            if a.len() < 3 {
                return plain;
            }
            let r: u32 = read_single_or(a, 0, F32_ZERO);
            let g: u32 = read_single_or(a, 1, F32_ZERO);
            let b: u32 = read_single_or(a, 2, F32_ZERO);
            let alpha: u32 = if a.len() > 3 {
                read_single_or(a, 3, F32_ONE)
            } else {
                F32_ONE
            };
            if f32_is_zero(r) && f32_is_zero(g) && f32_is_zero(b) {
                plain
            } else {
                let t: [u32; 4] = [r, g, b, alpha];
                assert(t@ =~= seq![r, g, b, alpha]);
                t
            }
        },
        None => plain,
    }
}

/// The integer under `key`; `default` where there is none.
pub open spec fn integer_or(v: Value, key: Seq<char>, default: i64) -> i64 {
    match crate::kv::signed_at(v, key) {
        Some(i) => i,
        None => default,
    }
}

/// Reads the integer under `key`.
pub fn read_integer_or(v: &Value, key: &str, default: i64) -> (r: i64)
    ensures
        r == integer_or(*v, key@, default),
{
    match v.get_i64(key) {
        Some(i) => i,
        None => default,
    }
}

/// The tint of a fragment, from 0 to 255.
pub open spec fn fragment_tint(v: Value) -> Option<Seq<u32>> {
    match crate::kv::items_at(v, "m_vTintColor"@) {
        Some(a) => if a.len() >= 3 {
            Some(
                seq![
                    single_or(a, 0, F32_255),
                    single_or(a, 1, F32_255),
                    single_or(a, 2, F32_255),
                ],
            )
        } else {
            None
        },
        None => None,
    }
}

/// The key of the probe volume that an object or a fragment was bound to.
pub open spec fn handshake_of(v: Value) -> i64 {
    integer_or(v, "m_nLightProbeVolumePrecomputedHandshake"@, 0)
}

/// One fragment.
pub open spec fn fragment_of(v: Value) -> FragmentView {
    FragmentView {
        draw_call_index: integer_or(v, "m_nDrawCallIndex"@, (-1) as i64),
        has_transform: crate::buffer::flag_at(v, "m_bHasTransform"@),
        tint: fragment_tint(v),
        lod_group_mask: integer_or(v, "m_nLODGroupMask"@, 0),
        lod_setup_index: integer_or(v, "m_nLODSetupIndex"@, (-1) as i64),
        light_probe_volume_handshake: handshake_of(v),
    }
}

/// Decodes one fragment.
pub fn parse_fragment(v: &Value) -> (r: FragmentRaw)
    ensures
        r@ == fragment_of(*v),
{
    let tint: Option<[u32; 3]> = match v.get_array("m_vTintColor") {
        Some(a) => {
            if a.len() >= 3 {
                let t: [u32; 3] = [
                    read_single_or(a, 0, F32_255),
                    read_single_or(a, 1, F32_255),
                    read_single_or(a, 2, F32_255),
                ];
                assert(t@ =~= seq![
                    single_or(a@, 0, F32_255),
                    single_or(a@, 1, F32_255),
                    single_or(a@, 2, F32_255),
                ]);
                Some(t)
            } else {
                None
            }
        },
        None => None,
    };
    FragmentRaw {
        draw_call_index: read_integer_or(v, "m_nDrawCallIndex", -1),
        has_transform: crate::buffer::flag(v, "m_bHasTransform"),
        tint,
        lod_group_mask: read_integer_or(v, "m_nLODGroupMask", 0),
        lod_setup_index: read_integer_or(v, "m_nLODSetupIndex", -1),
        light_probe_volume_handshake: read_integer_or(
            v,
            "m_nLightProbeVolumePrecomputedHandshake",
            0,
        ),
    }
}

/// The layer of scene object `i`.
pub open spec fn layer_of(layers: Option<Seq<Value>>, i: int) -> Option<usize> {
    match layers {
        Some(a) => if i < a.len() {
            match crate::kv::signed_of(a[i]) {
                Some(n) => if crate::mesh::is_size(n) {
                    Some(n as usize)
                } else {
                    None
                },
                None => None,
            }
        } else {
            None
        },
        None => None,
    }
}

/// One scene object.
pub open spec fn object_of(v: Value, layers: Option<Seq<Value>>, i: int) -> SceneObjectView {
    SceneObjectView {
        renderable_model: crate::text::opt_text(crate::kv::string_at(v, "m_renderableModel"@)),
        renderable: crate::text::opt_text(crate::kv::string_at(v, "m_renderable"@)),
        transform: match crate::kv::child(v, "m_vTransform"@) {
            Some(t) => nested_transform(t),
            None => IDENTITY_TRANSFORM@,
        },
        tint: tint01(crate::kv::child(v, "m_vTintColor"@)),
        is_overlay: marks_overlay(object_flags(crate::kv::child(v, "m_nObjectTypeFlags"@))),
        overlay_render_order: integer_or(v, "m_nOverlayRenderOrder"@, 0),
        layer_index: layer_of(layers, i),
        light_probe_volume_handshake: handshake_of(v),
    }
}

/// The items behind an optional list.
pub open spec fn opt_items(a: Option<&Vec<Value>>) -> Option<Seq<Value>> {
    match a {
        Some(v) => Some(v@),
        None => None,
    }
}

/// Decodes one scene object.
fn parse_object(v: &Value, layers: Option<&Vec<Value>>, i: usize) -> (r: SceneObjectRaw)
    ensures
        r@ == object_of(*v, opt_items(layers), i as int),
{
    let layer_index: Option<usize> = match layers {
        Some(a) => {
            if i < a.len() {
                match a[i].as_i64() {
                    Some(n) => {
                        if n >= 0 && n as u64 <= usize::MAX as u64 {
                            Some(n as usize)
                        } else {
                            None
                        }
                    },
                    None => None,
                }
            } else {
                None
            }
        },
        None => None,
    };
    SceneObjectRaw {
        renderable_model: v.get_string("m_renderableModel"),
        renderable: v.get_string("m_renderable"),
        transform: match v.get("m_vTransform") {
            Some(t) => parse_nested_transform(t),
            None => IDENTITY_TRANSFORM,
        },
        tint: parse_tint01(v.get("m_vTintColor")),
        is_overlay: is_overlay_flags(parse_object_type_flags(v.get("m_nObjectTypeFlags"))),
        overlay_render_order: read_integer_or(v, "m_nOverlayRenderOrder", 0),
        layer_index,
        light_probe_volume_handshake: read_integer_or(
            v,
            "m_nLightProbeVolumePrecomputedHandshake",
            0,
        ),
    }
}

/// The transforms among a list of values.
pub open spec fn transforms_of(items: Seq<Value>) -> Seq<Seq<u32>>
    decreases items.len(),
{
    if items.len() == 0 {
        Seq::empty()
    } else {
        match flat_transform(items.last()) {
            Some(t) => transforms_of(items.drop_last()).push(t),
            None => transforms_of(items.drop_last()),
        }
    }
}

/// The fragments of a list.
pub open spec fn fragments_of(items: Seq<Value>) -> Seq<FragmentView> {
    Seq::new(items.len(), |i: int| fragment_of(items[i]))
}

/// One aggregate.
pub open spec fn aggregate_of(v: Value) -> AggregateView {
    AggregateView {
        renderable_model: crate::text::opt_text(crate::kv::string_at(v, "m_renderableModel"@)),
        fragments: fragments_of(crate::model::list_at(v, "m_aggregateMeshes"@)),
        fragment_transforms: transforms_of(crate::model::list_at(v, "m_fragmentTransforms"@)),
    }
}

/// Decodes the fragments of an aggregate.
fn read_fragments(v: &Value) -> (r: Vec<FragmentRaw>)
    ensures
        fragment_views(r@) == fragments_of(crate::model::list_at(*v, "m_aggregateMeshes"@)),
{
    let mut out: Vec<FragmentRaw> = Vec::new();
    match v.get_array("m_aggregateMeshes") {
        Some(items) => {
            let mut i: usize = 0;
            while i < items.len()
                invariant
                    i <= items@.len(),
                    fragment_views(out@) == fragments_of(items@.take(i as int)),
                decreases items@.len() - i,
            {
                let f: FragmentRaw = parse_fragment(&items[i]);
                proof {
                    assert(fragment_views(out@.push(f)) =~= fragment_views(out@).push(f@));
                    assert(fragments_of(items@.take(i + 1)) =~= fragments_of(
                        items@.take(i as int),
                    ).push(f@));
                }
                out.push(f);
                i += 1;
            }
            assert(items@.take(i as int) =~= items@);
        },
        None => {
            assert(fragment_views(out@) =~= fragments_of(Seq::empty()));
        },
    }
    out
}

/// Decodes the transforms of an aggregate.
fn read_transforms(v: &Value) -> (r: Vec<Transform>)
    ensures
        transform_views(r@) == transforms_of(crate::model::list_at(*v, "m_fragmentTransforms"@)),
{
    let mut out: Vec<Transform> = Vec::new();
    assert(transform_views(out@) =~= Seq::<Seq<u32>>::empty());
    match v.get_array("m_fragmentTransforms") {
        Some(items) => {
            let mut i: usize = 0;
            while i < items.len()
                invariant
                    i <= items@.len(),
                    transform_views(out@) == transforms_of(items@.take(i as int)),
                decreases items@.len() - i,
            {
                proof {
                    assert(items@.take(i + 1).drop_last() =~= items@.take(i as int));
                    assert(items@.take(i + 1).last() == items@[i as int]);
                }
                match parse_flat_transform(&items[i]) {
                    Some(t) => {
                        assert(transform_views(out@.push(t)) =~= transform_views(out@).push(t@));
                        out.push(t);
                    },
                    None => {},
                }
                i += 1;
            }
            assert(items@.take(i as int) =~= items@);
        },
        None => {},
    }
    out
}

/// The scene objects of a world node.
pub open spec fn objects_of(root: Value) -> Seq<SceneObjectView> {
    let items = crate::model::list_at(root, "m_sceneObjects"@);
    let layers = crate::kv::items_at(root, "m_sceneObjectLayerIndices"@);
    Seq::new(items.len(), |i: int| object_of(items[i], layers, i))
}

/// The aggregates of a list.
pub open spec fn aggregates_of(items: Seq<Value>) -> Seq<AggregateView> {
    Seq::new(items.len(), |i: int| aggregate_of(items[i]))
}

/// The world node that a root describes.
pub open spec fn world_node_of(root: Value) -> WorldNodeView {
    WorldNodeView {
        scene_objects: objects_of(root),
        aggregates: aggregates_of(crate::model::list_at(root, "m_aggregateSceneObjects"@)),
        layer_names: crate::text::texts(crate::kv::strings_at(root, "m_layerNames"@)),
    }
}

/// Decodes the scene objects of a world node.
fn read_objects(root: &Value) -> (r: Vec<SceneObjectRaw>)
    ensures
        object_views(r@) == objects_of(*root),
{
    let layers: Option<&Vec<Value>> = root.get_array("m_sceneObjectLayerIndices");
    let ghost all = objects_of(*root);
    let mut out: Vec<SceneObjectRaw> = Vec::new();
    assert(object_views(out@) =~= all.take(0));
    match root.get_array("m_sceneObjects") {
        Some(items) => {
            let mut i: usize = 0;
            while i < items.len()
                invariant
                    i <= items@.len(),
                    all == objects_of(*root),
                    items@ == crate::model::list_at(*root, "m_sceneObjects"@),
                    opt_items(layers) == crate::kv::items_at(
                        *root,
                        "m_sceneObjectLayerIndices"@,
                    ),
                    object_views(out@) == all.take(i as int),
                decreases items@.len() - i,
            {
                let o: SceneObjectRaw = parse_object(&items[i], layers, i);
                proof {
                    assert(all[i as int] == o@);
                    assert(object_views(out@.push(o)) =~= object_views(out@).push(o@));
                    assert(all.take(i + 1) =~= all.take(i as int).push(o@));
                }
                out.push(o);
                i += 1;
            }
            assert(all.take(i as int) =~= all);
        },
        None => {
            assert(all.take(0) =~= all);
        },
    }
    out
}

/// Decodes the aggregates of a world node.
fn read_aggregates(root: &Value) -> (r: Vec<AggregateRaw>)
    ensures
        aggregate_views(r@) == aggregates_of(
            crate::model::list_at(*root, "m_aggregateSceneObjects"@),
        ),
{
    let mut out: Vec<AggregateRaw> = Vec::new();
    match root.get_array("m_aggregateSceneObjects") {
        Some(items) => {
            let mut i: usize = 0;
            while i < items.len()
                invariant
                    i <= items@.len(),
                    aggregate_views(out@) == aggregates_of(items@.take(i as int)),
                decreases items@.len() - i,
            {
                let a: AggregateRaw = AggregateRaw {
                    renderable_model: items[i].get_string("m_renderableModel"),
                    fragments: read_fragments(&items[i]),
                    fragment_transforms: read_transforms(&items[i]),
                };
                proof {
                    assert(a@ == aggregate_of(items@[i as int]));
                    assert(aggregate_views(out@.push(a)) =~= aggregate_views(out@).push(a@));
                    assert(aggregates_of(items@.take(i + 1)) =~= aggregates_of(
                        items@.take(i as int),
                    ).push(a@));
                }
                out.push(a);
                i += 1;
            }
            assert(items@.take(i as int) =~= items@);
        },
        None => {
            assert(aggregate_views(out@) =~= aggregates_of(Seq::empty()));
        },
    }
    out
}

/// Decodes a world node. What is missing or of another type counts as absent, so no root is an
/// error.
pub fn decode_world_node(root: &Value) -> (r: Result<WorldNodeRaw, MeshError>)
    ensures
        r matches Ok(n) && n@ == world_node_of(*root),
{
    Ok(
        WorldNodeRaw {
            scene_objects: read_objects(root),
            aggregates: read_aggregates(root),
            layer_names: root.get_strings("m_layerNames"),
        },
    )
}

/// One placed fragment: the draw call to render, where, and how tinted.
#[derive(Debug, Clone, Copy)]
pub struct FragmentPlacement {
    pub draw_call_index: usize,
    pub transform: Transform,
    /// The tint from 0 to 255, as the bits of three singles; white where the fragment has none.
    pub tint: [u32; 3],
    pub light_probe_volume_handshake: i64,
}

/// A [`FragmentPlacement`] as plain values.
pub struct PlacementView {
    pub draw_call_index: usize,
    pub transform: Seq<u32>,
    pub tint: Seq<u32>,
    pub light_probe_volume_handshake: i64,
}

impl View for FragmentPlacement {
    type V = PlacementView;

    open spec fn view(&self) -> PlacementView {
        PlacementView {
            draw_call_index: self.draw_call_index,
            transform: self.transform@,
            tint: self.tint@,
            light_probe_volume_handshake: self.light_probe_volume_handshake,
        }
    }
}

/// The views of a list of placements.
pub open spec fn placement_views(v: Seq<FragmentPlacement>) -> Seq<PlacementView> {
    Seq::new(v.len(), |i: int| v[i]@)
}

/// A fragment claims a transform that the aggregate does not have.
#[derive(Debug, Clone, Copy, PartialEq, Eq, Structural)]
pub struct FragmentTransformShortage {
    pub fragment: usize,
    pub slot: usize,
    pub available: usize,
}

/// The message of a shortage.
pub open spec fn shortage_text(e: FragmentTransformShortage) -> Seq<char> {
    "fragment "@ + crate::error::num(e.fragment as int) + " claims transform slot "@
        + crate::error::num(e.slot as int) + ", but only "@ + crate::error::num(
        e.available as int,
    ) + " are present"@
}

impl FragmentTransformShortage {
    /// The message.
    pub fn message(&self) -> (r: String)
        ensures
            r@ == shortage_text(*self),
    {
        let mut r: String = "fragment ".to_owned();
        r.append(crate::text::decimal(self.fragment as u64).as_str());
        r.append(" claims transform slot ");
        r.append(crate::text::decimal(self.slot as u64).as_str());
        r.append(", but only ");
        r.append(crate::text::decimal(self.available as u64).as_str());
        r.append(" are present");
        r
    }
}

/// How many of the first `n` fragments have a transform.
pub open spec fn slots_before(fragments: Seq<FragmentView>, n: int) -> int
    decreases n,
{
    if n <= 0 {
        0
    } else {
        slots_before(fragments, n - 1) + if fragments[n - 1].has_transform {
            1int
        } else {
            0
        }
    }
}

/// The union of the masks of the fragments with one setup.
pub open spec fn setup_mask(fragments: Seq<FragmentView>, setup: i64) -> i64
    decreases fragments.len(),
{
    if fragments.len() == 0 {
        0
    } else if fragments.last().lod_setup_index == setup {
        setup_mask(fragments.drop_last(), setup) | fragments.last().lod_group_mask
    } else {
        setup_mask(fragments.drop_last(), setup)
    }
}

/// Whether a fragment is of the lowest level of its setup; one without a mask always counts.
pub open spec fn in_lowest_level(fragments: Seq<FragmentView>, f: FragmentView) -> bool {
    f.lod_group_mask == 0 || crate::model::has_level(
        f.lod_group_mask,
        crate::model::lowest_of(setup_mask(fragments, f.lod_setup_index)),
    )
}

/// Whether fragment `i` claims a transform that is missing.
pub open spec fn lacks_transform(agg: AggregateView, i: int) -> bool {
    agg.fragments[i].has_transform && slots_before(agg.fragments, i)
        >= agg.fragment_transforms.len()
}

/// The placement of fragment `i`: none where its transform collapses it, where it is not of the
/// lowest level of its setup, or where it names no draw call.
pub open spec fn placement_of(agg: AggregateView, collapsed: Seq<bool>, i: int) -> Option<
    PlacementView,
> {
    let f = agg.fragments[i];
    let slot = slots_before(agg.fragments, i);
    if f.has_transform && collapsed[slot] {
        None
    } else if !in_lowest_level(agg.fragments, f) {
        None
    } else if f.draw_call_index < 0 {
        None
    } else {
        Some(
            PlacementView {
                draw_call_index: f.draw_call_index as usize,
                transform: if f.has_transform {
                    agg.fragment_transforms[slot]
                } else {
                    IDENTITY_TRANSFORM@
                },
                tint: match f.tint {
                    Some(t) => t,
                    None => seq![F32_255, F32_255, F32_255],
                },
                light_probe_volume_handshake: f.light_probe_volume_handshake,
            },
        )
    }
}

/// The placements of the first `n` fragments.
pub open spec fn placements_of(agg: AggregateView, collapsed: Seq<bool>, n: int) -> Result<
    Seq<PlacementView>,
    FragmentTransformShortage,
>
    decreases n,
{
    if n <= 0 {
        Ok(Seq::empty())
    } else {
        match placements_of(agg, collapsed, n - 1) {
            Err(e) => Err(e),
            Ok(before) => if lacks_transform(agg, n - 1) {
                Err(
                    FragmentTransformShortage {
                        fragment: (n - 1) as usize,
                        slot: slots_before(agg.fragments, n - 1) as usize,
                        available: agg.fragment_transforms.len() as usize,
                    },
                )
            } else {
                match placement_of(agg, collapsed, n - 1) {
                    Some(p) => Ok(before.push(p)),
                    None => Ok(before),
                }
            },
        }
    }
}

/// A shortage stays one, however many fragments follow.
proof fn lemma_shortage_stays(agg: AggregateView, collapsed: Seq<bool>, k: int, n: int)
    requires
        0 <= k <= n,
        placements_of(agg, collapsed, k) is Err,
    ensures
        placements_of(agg, collapsed, n) == placements_of(agg, collapsed, k),
    decreases n - k,
{
    if k < n {
        lemma_shortage_stays(agg, collapsed, k, n - 1);
    }
}

/// The slots that fragments take are no more than the fragments.
proof fn lemma_slots(fragments: Seq<FragmentView>, n: int)
    requires
        0 <= n,
    ensures
        0 <= slots_before(fragments, n) <= n,
    decreases n,
{
    if n > 0 {
        lemma_slots(fragments, n - 1);
    }
}

/// The union of masks, per setup.
fn combine_by_setup(fragments: &Vec<FragmentRaw>) -> (r: HashMap<i64, i64>)
    ensures
        forall|s: i64| #[trigger]
            r@.contains_key(s) ==> r@[s] == setup_mask(fragment_views(fragments@), s),
        forall|i: int|
            0 <= i < fragments@.len() ==> r@.contains_key(
                #[trigger] fragments@[i].lod_setup_index,
            ),
{
    broadcast use vstd::std_specs::hash::group_hash_axioms;

    let ghost all = fragment_views(fragments@);
    let mut combined: HashMap<i64, i64> = HashMap::new();
    let mut i: usize = 0;
    while i < fragments.len()
        invariant
            i <= fragments@.len(),
            all == fragment_views(fragments@),
            forall|s: i64| #[trigger]
                combined@.contains_key(s) ==> combined@[s] == setup_mask(all.take(i as int), s),
            forall|s: i64|
                !#[trigger] combined@.contains_key(s) ==> setup_mask(all.take(i as int), s) == 0,
            forall|k: int|
                0 <= k < i ==> combined@.contains_key(#[trigger] fragments@[k].lod_setup_index),
        decreases fragments@.len() - i,
    {
        let setup: i64 = fragments[i].lod_setup_index;
        let before: i64 = match combined.get(&setup) {
            Some(m) => *m,
            None => 0,
        };
        proof {
            assert(all.take(i + 1).drop_last() =~= all.take(i as int));
            assert(all.take(i + 1).last() == fragments@[i as int]@);
            assert(before == setup_mask(all.take(i as int), setup));
        }
        let ghost earlier = combined@;
        combined.insert(setup, before | fragments[i].lod_group_mask);
        assert forall|s: i64| #[trigger] combined@.contains_key(s) implies combined@[s]
            == setup_mask(all.take(i + 1), s) by {
            if s != setup {
                assert(earlier.contains_key(s));
            }
        }
        assert forall|s: i64| !#[trigger] combined@.contains_key(s) implies setup_mask(
            all.take(i + 1),
            s,
        ) == 0 by {
            assert(!earlier.contains_key(s));
        }
        assert forall|k: int| 0 <= k < i + 1 implies combined@.contains_key(
            #[trigger] fragments@[k].lod_setup_index,
        ) by {
            if k < i {
                assert(earlier.contains_key(fragments@[k].lod_setup_index));
            }
        }
        i += 1;
    }
    assert(all.take(i as int) =~= all);
    combined
}

/// What placing gave back, as plain values.
pub open spec fn placing_outcome(
    r: Result<Vec<FragmentPlacement>, FragmentTransformShortage>,
) -> Result<Seq<PlacementView>, FragmentTransformShortage> {
    match r {
        Ok(v) => Ok(placement_views(v@)),
        Err(e) => Err(e),
    }
}

/// Places the fragments of an aggregate. `collapsed` tells of each of the aggregate's transforms
/// whether its determinant is zero.
///
/// A fragment with a transform takes the next one, whether or not it is placed in the end.
pub fn build_fragment_placements(agg: &AggregateRaw, collapsed: &Vec<bool>) -> (r: Result<
    Vec<FragmentPlacement>,
    FragmentTransformShortage,
>)
    requires
        collapsed@.len() == agg.fragment_transforms@.len(),
    ensures
        placing_outcome(r) == placements_of(agg@, collapsed@, agg.fragments@.len() as int),
{
    broadcast use vstd::std_specs::hash::group_hash_axioms;

    let combined: HashMap<i64, i64> = combine_by_setup(&agg.fragments);
    let available: usize = agg.fragment_transforms.len();
    let total: usize = agg.fragments.len();
    let mut next: usize = 0;
    let mut out: Vec<FragmentPlacement> = Vec::new();
    assert(placement_views(out@) =~= Seq::<PlacementView>::empty());
    let mut id: usize = 0;
    while id < total
        invariant
            id <= total,
            total == agg.fragments@.len(),
            available == agg.fragment_transforms@.len(),
            collapsed@.len() == available,
            next == slots_before(agg@.fragments, id as int),
            next <= id,
            forall|s: i64| #[trigger]
                combined@.contains_key(s) ==> combined@[s] == setup_mask(agg@.fragments, s),
            forall|i: int|
                0 <= i < agg.fragments@.len() ==> combined@.contains_key(
                    #[trigger] agg.fragments@[i].lod_setup_index,
                ),
            placements_of(agg@, collapsed@, id as int) == Ok::<
                Seq<PlacementView>,
                FragmentTransformShortage,
            >(placement_views(out@)),
        decreases total - id,
    {
        let f: &FragmentRaw = &agg.fragments[id];
        let ghost slot = next as int;
        assert(agg@.fragments[id as int] == f@);
        let mut keep: bool = true;
        let mut transform: Transform = IDENTITY_TRANSFORM;
        if f.has_transform {
            if next >= available {
                proof {
                    lemma_shortage_stays(agg@, collapsed@, id + 1, total as int);
                }
                return Err(FragmentTransformShortage { fragment: id, slot: next, available });
            }
            transform = agg.fragment_transforms[next];
            assert(agg@.fragment_transforms[slot] == transform@);
            keep = !collapsed[next];
            next += 1;
        }
        assert(combined@.contains_key(agg.fragments@[id as int].lod_setup_index));
        let mask: i64 = match combined.get(&f.lod_setup_index) {
            Some(m) => *m,
            None => 0,
        };
        assert(mask == setup_mask(agg@.fragments, f.lod_setup_index));
        let lowest: i64 = lowest_level_of(mask);
        let in_lowest: bool = f.lod_group_mask == 0 || f.lod_group_mask & (1i64 << lowest) != 0;
        assert(in_lowest == in_lowest_level(agg@.fragments, f@));
        if keep && in_lowest && f.draw_call_index >= 0 {
            let plain: [u32; 3] = [F32_255, F32_255, F32_255];
            assert(plain@ =~= seq![F32_255, F32_255, F32_255]);
            let p: FragmentPlacement = FragmentPlacement {
                draw_call_index: #[verifier::truncate] (f.draw_call_index as usize),
                transform,
                tint: match f.tint {
                    Some(t) => t,
                    None => plain,
                },
                light_probe_volume_handshake: f.light_probe_volume_handshake,
            };
            proof {
                assert(placement_of(agg@, collapsed@, id as int) == Some(p@));
                assert(placement_views(out@.push(p)) =~= placement_views(out@).push(p@));
            }
            out.push(p);
        } else {
            assert(placement_of(agg@, collapsed@, id as int) is None);
        }
        id += 1;
    }
    Ok(out)
}

/// Where an aggregate can be placed at all, every fragment with a transform has one of its own:
/// a fragment that is dropped takes its slot as one that is placed does.
pub proof fn every_claim_has_its_slot(agg: AggregateView, collapsed: Seq<bool>, n: int, i: int)
    requires
        placements_of(agg, collapsed, n) is Ok,
        0 <= i < n <= agg.fragments.len(),
        agg.fragments[i].has_transform,
    ensures
        0 <= slots_before(agg.fragments, i) < agg.fragment_transforms.len(),
        forall|k: int|
            0 <= k < i ==> slots_before(agg.fragments, k) <= slots_before(agg.fragments, i),
        forall|k: int|
            0 <= k < i && #[trigger] agg.fragments[k].has_transform ==> slots_before(
                agg.fragments,
                k,
            ) < slots_before(agg.fragments, i),
    decreases n,
{
    lemma_slots(agg.fragments, i);
    if i < n - 1 {
        every_claim_has_its_slot(agg, collapsed, n - 1, i);
    } else {
        assert(!lacks_transform(agg, i));
    }
    assert forall|k: int| 0 <= k < i implies slots_before(agg.fragments, k) <= slots_before(
        agg.fragments,
        i,
    ) by {
        lemma_slots_grow(agg.fragments, k, i);
    }
    assert forall|k: int| 0 <= k < i && #[trigger] agg.fragments[k].has_transform implies
        slots_before(agg.fragments, k) < slots_before(agg.fragments, i) by {
        lemma_slots_grow(agg.fragments, k + 1, i);
    }
}

/// Slots only grow.
proof fn lemma_slots_grow(fragments: Seq<FragmentView>, a: int, b: int)
    requires
        0 <= a <= b,
    ensures
        slots_before(fragments, a) <= slots_before(fragments, b),
    decreases b - a,
{
    if a < b {
        lemma_slots_grow(fragments, a, b - 1);
    }
}

/// The union of a setup holds every level that one of its fragments holds.
proof fn lemma_setup_mask_holds(fragments: Seq<FragmentView>, i: int, level: u64)
    requires
        0 <= i < fragments.len(),
        level < 64,
        crate::model::has_level(fragments[i].lod_group_mask, level as int),
    ensures
        crate::model::has_level(
            setup_mask(fragments, fragments[i].lod_setup_index),
            level as int,
        ),
    decreases fragments.len(),
{
    let setup = fragments[i].lod_setup_index;
    let before = setup_mask(fragments.drop_last(), setup);
    let last = fragments.last().lod_group_mask;
    if i < fragments.len() - 1 {
        assert(fragments.drop_last()[i] == fragments[i]);
        lemma_setup_mask_holds(fragments.drop_last(), i, level);
        assert((before | last) & (1i64 << level) != 0) by (bit_vector)
            requires
                before & (1i64 << level) != 0,
        ;
    } else {
        assert((before | last) & (1i64 << level) != 0) by (bit_vector)
            requires
                last & (1i64 << level) != 0,
        ;
    }
}

/// A placed fragment that levels of detail manage is of the finest level of its setup: no fragment
/// with the same setup has a lower level than one that the placed fragment has.
pub proof fn placed_fragments_are_the_finest(
    agg: AggregateView,
    collapsed: Seq<bool>,
    i: int,
    k: int,
    level: u64,
)
    requires
        0 <= i < agg.fragments.len(),
        0 <= k < agg.fragments.len(),
        placement_of(agg, collapsed, i) is Some,
        agg.fragments[i].lod_group_mask != 0,
        agg.fragments[k].lod_setup_index == agg.fragments[i].lod_setup_index,
        level < 64,
        crate::model::has_level(agg.fragments[k].lod_group_mask, level as int),
    ensures
        ({
            let lowest = crate::model::lowest_of(
                setup_mask(agg.fragments, agg.fragments[i].lod_setup_index),
            );
            &&& lowest <= level
            &&& crate::model::has_level(agg.fragments[i].lod_group_mask, lowest)
        }),
{
    lemma_setup_mask_holds(agg.fragments, k, level);
    let mask = setup_mask(agg.fragments, agg.fragments[i].lod_setup_index);
    assert(mask != 0) by {
        assert(0i64 & (1i64 << level) == 0) by (bit_vector);
    }
    crate::model::lowest_level_is_held(mask);
}

} // verus!
