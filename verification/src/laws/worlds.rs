//! What decoded worlds hold, in terms of the keys and the lists of the trees that they were decoded
//! from, and how the fragments of an aggregate are placed.

use crate::kv::Value;
use crate::world::{AggregateView, FragmentView, SceneObjectView};
use vstd::prelude::*;

verus! {

/// The number at a place of a list, or nothing where there is none.
pub open spec fn number_in(v: Value, i: int) -> Option<u32> {
    match v {
        Value::Array(a) => if 0 <= i < a@.len() {
            match a@[i] {
                Value::Number(n) => Some(n.single),
                _ => None,
            }
        } else {
            None
        },
        _ => None,
    }
}

/// A transform that is written as rows has in cell `j` of row `i` the number that stands as item `j`
/// of item `i`; where there is no number it has what the transform has that moves nothing.
pub proof fn rows_are_read_row_by_row(v: Value, i: int, j: int)
    requires
        0 <= i < 3,
        0 <= j < 4,
    ensures
        ({
            let t = crate::world::nested_transform(v);
            &&& t.len() == 12
            &&& match v {
                Value::Array(rows) => if i < rows@.len() {
                    match number_in(rows@[i], j) {
                        Some(f) => t[4 * i + j] == f,
                        None => t[4 * i + j] == crate::world::IDENTITY_TRANSFORM@[4 * i + j],
                    }
                } else {
                    t[4 * i + j] == crate::world::IDENTITY_TRANSFORM@[4 * i + j]
                },
                _ => t[4 * i + j] == crate::world::IDENTITY_TRANSFORM@[4 * i + j],
            }
        }),
{
    let t = crate::world::nested_transform(v);
    assert(t[4 * i + j] == crate::world::nested_cell(v, i, j)) by {
        assert((4 * i + j) / 4 == i && (4 * i + j) % 4 == j);
    }
    the_identity_moves_nothing(i, j);
}

/// The transform that moves nothing has 1 where row and column agree and 0 elsewhere.
pub proof fn the_identity_moves_nothing(i: int, j: int)
    requires
        0 <= i < 3,
        0 <= j < 4,
    ensures
        crate::world::IDENTITY_TRANSFORM@[4 * i + j] == (if i == j {
            0x3F80_0000u32
        } else {
            0u32
        }),
{
    let t = crate::world::IDENTITY_TRANSFORM@;
    assert(t[0] == 0x3F80_0000 && t[1] == 0 && t[2] == 0 && t[3] == 0);
    assert(t[4] == 0 && t[5] == 0x3F80_0000 && t[6] == 0 && t[7] == 0);
    assert(t[8] == 0 && t[9] == 0 && t[10] == 0x3F80_0000 && t[11] == 0);
    if i == 0 {
        assert(4 * i + j == j);
    } else if i == 1 {
        assert(4 * i + j == 4 + j);
    } else {
        assert(4 * i + j == 8 + j);
    }
}

/// A transform that is written as one list has its items in order, and nought where an item is no
/// number; a list that is too short is none.
pub proof fn a_list_is_read_in_order(v: Value, k: int)
    requires
        0 <= k < 12,
    ensures
        match crate::world::flat_transform(v) {
            Some(t) => {
                &&& t.len() == 12
                &&& v matches Value::Array(a) && a@.len() >= 12
                &&& match number_in(v, k) {
                    Some(f) => t[k] == f,
                    None => t[k] == 0,
                }
            },
            None => !(v matches Value::Array(a) && a@.len() >= 12),
        },
{
}

/// The transforms of two lists, one behind the other, are those of the one and then of the other; a
/// transform gives itself, and anything else nothing.
pub proof fn transforms_come_in_order(a: Seq<Value>, b: Seq<Value>, v: Value)
    ensures
        crate::world::transforms_of(a + b) == crate::world::transforms_of(a)
            + crate::world::transforms_of(b),
        crate::world::transforms_of(seq![v]) == (match crate::world::flat_transform(v) {
            Some(t) => seq![t],
            None => Seq::empty(),
        }),
    decreases b.len(),
{
    reveal_with_fuel(crate::world::transforms_of, 2);
    assert(seq![v].drop_last() =~= Seq::<Value>::empty());
    assert(crate::world::transforms_of(seq![v]) =~= (match crate::world::flat_transform(v) {
        Some(t) => seq![t],
        None => Seq::empty(),
    }));
    if b.len() == 0 {
        assert(a + b =~= a);
        assert(crate::world::transforms_of(a) + crate::world::transforms_of(b)
            =~= crate::world::transforms_of(a));
    } else {
        transforms_come_in_order(a, b.drop_last(), v);
        assert((a + b).drop_last() =~= a + b.drop_last());
        assert(crate::world::transforms_of(a + b) =~= crate::world::transforms_of(a)
            + crate::world::transforms_of(b));
    }
}

/// Whether a colour is black: each of its first three numbers is nought, of either sign.
pub open spec fn is_black(v: Value) -> bool {
    &&& (number_in(v, 0) matches Some(f) ==> f % 0x8000_0000 == 0)
    &&& (number_in(v, 1) matches Some(f) ==> f % 0x8000_0000 == 0)
    &&& (number_in(v, 2) matches Some(f) ==> f % 0x8000_0000 == 0)
}

/// A number, or another where there is none.
pub open spec fn or(v: Option<u32>, default: u32) -> u32 {
    match v {
        Some(f) => f,
        None => default,
    }
}

/// A tint is red, green, blue and opacity in the order of the list, opaque where the list has only
/// three; one that is missing, too short or black is white.
pub proof fn a_tint_is_read_in_order(v: Option<Value>)
    ensures
        ({
            let t = crate::world::tint01(v);
            let given = v matches Some(Value::Array(a)) && a@.len() >= 3 && !is_black(v->Some_0);
            &&& t.len() == 4
            &&& given ==> {
                let c = v->Some_0;
                &&& t[0] == or(number_in(c, 0), 0)
                &&& t[1] == or(number_in(c, 1), 0)
                &&& t[2] == or(number_in(c, 2), 0)
                &&& t[3] == or(number_in(c, 3), 0x3F80_0000)
            }
            &&& !given ==> t[0] == 0x3F80_0000 && t[1] == 0x3F80_0000 && t[2] == 0x3F80_0000 && t[3]
                == 0x3F80_0000
        }),
{
}

/// Whether an overlay is marked: by its bit in a number, or by its name among names with bars
/// between them.
pub open spec fn says_overlay(v: Option<Value>) -> bool {
    match v {
        Some(Value::Number(n)) => match n.signed {
            Some(flags) => (flags >> 13) & 1 == 1,
            None => false,
        },
        Some(Value::String(s)) => exists|i: int|
            0 <= i < crate::text::pieces(s@, '|').len() && crate::text::trimmed(
                #[trigger] crate::text::pieces(s@, '|')[i],
            ) == "OBJECT_TYPE_OVERLAY"@,
        _ => false,
    }
}

/// Names that are not that of an overlay do not mark one.
proof fn lemma_overlay_bit(name: Seq<char>)
    ensures
        (crate::world::bit_of_name(name) & 0x2000 != 0) == (crate::text::trimmed(name)
            == "OBJECT_TYPE_OVERLAY"@),
{
    reveal_strlit("OBJECT_TYPE_DECAL");
    reveal_strlit("OBJECT_TYPE_MODEL");
    reveal_strlit("OBJECT_TYPE_BLOCK_LIGHT");
    reveal_strlit("OBJECT_TYPE_NO_SHADOWS");
    reveal_strlit("OBJECT_TYPE_RENDER_TO_CUBEMAPS");
    reveal_strlit("OBJECT_TYPE_OVERLAY");
    assert(0x4i64 & 0x2000 == 0 && 0x8i64 & 0x2000 == 0 && 0x10i64 & 0x2000 == 0 && 0x20i64 & 0x2000
        == 0 && 0x400i64 & 0x2000 == 0 && 0x2000i64 & 0x2000 != 0 && 0i64 & 0x2000 == 0)
        by (bit_vector);
    assert("OBJECT_TYPE_DECAL"@.len() == 17 && "OBJECT_TYPE_MODEL"@.len() == 17
        && "OBJECT_TYPE_OVERLAY"@.len() == 19);
    assert("OBJECT_TYPE_BLOCK_LIGHT"@.len() == 23 && "OBJECT_TYPE_NO_SHADOWS"@.len() == 22
        && "OBJECT_TYPE_RENDER_TO_CUBEMAPS"@.len() == 30);
}

/// Names mark an overlay where one of them does.
proof fn lemma_overlay_bits(names: Seq<Seq<char>>)
    ensures
        (crate::world::bits_of_names(names) & 0x2000 != 0) == exists|i: int|
            0 <= i < names.len() && crate::text::trimmed(#[trigger] names[i])
                == "OBJECT_TYPE_OVERLAY"@,
    decreases names.len(),
{
    if names.len() == 0 {
        assert(0i64 & 0x2000 == 0) by (bit_vector);
    } else {
        let front = names.drop_last();
        lemma_overlay_bits(front);
        lemma_overlay_bit(names.last());
        let a = crate::world::bits_of_names(front);
        let b = crate::world::bit_of_name(names.last());
        assert(((a | b) & 0x2000 != 0) == (a & 0x2000 != 0 || b & 0x2000 != 0)) by (bit_vector);
        if exists|i: int|
            0 <= i < front.len() && crate::text::trimmed(#[trigger] front[i])
                == "OBJECT_TYPE_OVERLAY"@ {
            let i = choose|i: int|
                0 <= i < front.len() && crate::text::trimmed(#[trigger] front[i])
                    == "OBJECT_TYPE_OVERLAY"@;
            assert(names[i] == front[i]);
        }
        if b & 0x2000 != 0 {
            assert(names[names.len() - 1] == names.last());
        }
        if exists|i: int|
            0 <= i < names.len() && crate::text::trimmed(#[trigger] names[i])
                == "OBJECT_TYPE_OVERLAY"@ {
            let i = choose|i: int|
                0 <= i < names.len() && crate::text::trimmed(#[trigger] names[i])
                    == "OBJECT_TYPE_OVERLAY"@;
            if i < front.len() {
                assert(front[i] == names[i]);
            }
        }
    }
}

/// Flags mark an overlay in the one form as in the other.
pub proof fn an_overlay_is_marked_by_its_bit_or_its_name(v: Option<Value>)
    ensures
        crate::world::marks_overlay(crate::world::object_flags(v)) == says_overlay(v),
{
    let flags = crate::world::object_flags(v);
    assert((flags & 0x2000 != 0) == ((flags >> 13) & 1 == 1)) by (bit_vector);
    assert(0i64 & 0x2000 == 0) by (bit_vector);
    match v {
        Some(Value::String(s)) => {
            lemma_overlay_bits(crate::text::pieces(s@, '|'));
        },
        _ => {},
    }
}

/// The integer under a key, or another where there is none.
pub open spec fn whole_at(v: Value, key: Seq<char>, default: int) -> int {
    match crate::kv::signed_at(v, key) {
        Some(i) => i as int,
        None => default,
    }
}

/// The text under a key.
pub open spec fn text_at(v: Value, key: Seq<char>) -> Option<Seq<char>> {
    match crate::kv::string_at(v, key) {
        Some(s) => Some(s@),
        None => None,
    }
}

/// Whether a scene object is what a tree says, key by key.
pub open spec fn is_object(v: Value, o: SceneObjectView) -> bool {
    &&& o.renderable_model == text_at(v, "m_renderableModel"@)
    &&& o.renderable == text_at(v, "m_renderable"@)
    &&& match crate::kv::child(v, "m_vTransform"@) {
        Some(t) => o.transform == crate::world::nested_transform(t),
        None => o.transform == crate::world::IDENTITY_TRANSFORM@,
    }
    &&& o.tint == crate::world::tint01(crate::kv::child(v, "m_vTintColor"@))
    &&& o.is_overlay == says_overlay(crate::kv::child(v, "m_nObjectTypeFlags"@))
    &&& o.overlay_render_order == whole_at(v, "m_nOverlayRenderOrder"@, 0)
    &&& o.light_probe_volume_handshake == whole_at(
        v,
        "m_nLightProbeVolumePrecomputedHandshake"@,
        0,
    )
}

/// Whether a fragment is what a tree says, key by key.
pub open spec fn is_fragment(v: Value, f: FragmentView) -> bool {
    &&& f.draw_call_index == whole_at(v, "m_nDrawCallIndex"@, -1)
    &&& f.has_transform == (crate::kv::truth_at(v, "m_bHasTransform"@) == Some(true))
    &&& match crate::kv::child(v, "m_vTintColor"@) {
        Some(Value::Array(a)) => if a@.len() >= 3 {
            f.tint matches Some(t) && {
                &&& t.len() == 3
                &&& t[0] == or(number_in(Value::Array(a), 0), 0x437F_0000)
                &&& t[1] == or(number_in(Value::Array(a), 1), 0x437F_0000)
                &&& t[2] == or(number_in(Value::Array(a), 2), 0x437F_0000)
            }
        } else {
            f.tint is None
        },
        _ => f.tint is None,
    }
    &&& f.lod_group_mask == whole_at(v, "m_nLODGroupMask"@, 0)
    &&& f.lod_setup_index == whole_at(v, "m_nLODSetupIndex"@, -1)
    &&& f.light_probe_volume_handshake == whole_at(
        v,
        "m_nLightProbeVolumePrecomputedHandshake"@,
        0,
    )
}

/// A fragment is what the keys of its tree say.
pub proof fn a_fragment_is_what_its_keys_say(v: Value)
    ensures
        is_fragment(v, crate::world::fragment_of(v)),
{
}

/// A world node has its scene objects and its aggregates in the order of their lists, each with what
/// its keys say; the layer of an object stands at the object's place in the list of layers.
pub proof fn a_world_node_is_what_its_keys_say(root: Value, i: int, k: int)
    ensures
        ({
            let n = crate::world::world_node_of(root);
            let objects = crate::model::list_at(root, "m_sceneObjects"@);
            let aggregates = crate::model::list_at(root, "m_aggregateSceneObjects"@);
            &&& n.scene_objects.len() == objects.len()
            &&& 0 <= i < objects.len() ==> {
                &&& is_object(objects[i], n.scene_objects[i])
                &&& match crate::kv::items_at(root, "m_sceneObjectLayerIndices"@) {
                    Some(layers) => n.scene_objects[i].layer_index == (if i < layers.len() {
                        match crate::kv::signed_of(layers[i]) {
                            Some(l) => if 0 <= l <= usize::MAX {
                                Some(l as usize)
                            } else {
                                None
                            },
                            None => None,
                        }
                    } else {
                        None
                    }),
                    None => n.scene_objects[i].layer_index is None,
                }
            }
            &&& n.aggregates.len() == aggregates.len()
            &&& 0 <= i < aggregates.len() ==> {
                let a = n.aggregates[i];
                let fragments = crate::model::list_at(aggregates[i], "m_aggregateMeshes"@);
                &&& a.renderable_model == text_at(aggregates[i], "m_renderableModel"@)
                &&& a.fragments.len() == fragments.len()
                &&& 0 <= k < fragments.len() ==> is_fragment(fragments[k], a.fragments[k])
                &&& a.fragment_transforms == crate::world::transforms_of(
                    crate::model::list_at(aggregates[i], "m_fragmentTransforms"@),
                )
            }
            &&& n.layer_names == crate::text::texts(crate::kv::strings_at(root, "m_layerNames"@))
        }),
{
    let objects = crate::model::list_at(root, "m_sceneObjects"@);
    let aggregates = crate::model::list_at(root, "m_aggregateSceneObjects"@);
    if 0 <= i < objects.len() {
        an_overlay_is_marked_by_its_bit_or_its_name(
            crate::kv::child(objects[i], "m_nObjectTypeFlags"@),
        );
    }
    if 0 <= i < aggregates.len() {
        let fragments = crate::model::list_at(aggregates[i], "m_aggregateMeshes"@);
        if 0 <= k < fragments.len() {
            a_fragment_is_what_its_keys_say(fragments[k]);
        }
    }
}

/// The prefixes of nodes come in order: each node with a prefix gives it, and any other nothing.
pub proof fn prefixes_come_in_order(a: Seq<Value>, b: Seq<Value>, v: Value)
    ensures
        crate::world::prefixes_of(a + b) == crate::world::prefixes_of(a)
            + crate::world::prefixes_of(b),
        crate::world::prefixes_of(seq![v]) == (match text_at(v, "m_worldNodePrefix"@) {
            Some(s) => seq![s],
            None => Seq::empty(),
        }),
    decreases b.len(),
{
    reveal_with_fuel(crate::world::prefixes_of, 2);
    assert(seq![v].drop_last() =~= Seq::<Value>::empty());
    assert(crate::world::prefixes_of(seq![v]) =~= (match text_at(v, "m_worldNodePrefix"@) {
        Some(s) => seq![s],
        None => Seq::empty(),
    }));
    if b.len() == 0 {
        assert(a + b =~= a);
        assert(crate::world::prefixes_of(a) + crate::world::prefixes_of(b)
            =~= crate::world::prefixes_of(a));
    } else {
        prefixes_come_in_order(a, b.drop_last(), v);
        assert((a + b).drop_last() =~= a + b.drop_last());
        assert(crate::world::prefixes_of(a + b) =~= crate::world::prefixes_of(a)
            + crate::world::prefixes_of(b));
    }
}

/// A world is what the keys of its root say.
pub proof fn a_world_is_what_its_keys_say(root: Value)
    ensures
        ({
            let w = crate::world::world_of(root);
            &&& w.entity_lumps == crate::text::texts(crate::kv::strings_at(root, "m_entityLumps"@))
            &&& w.light_maps == crate::text::texts(crate::kv::strings_at(root, "m_lightMaps"@))
            &&& w.world_node_prefixes == crate::world::prefixes_of(
                crate::model::list_at(root, "m_worldNodes"@),
            )
            &&& w.lightmap_uv_scale.len() == 2
            &&& match crate::kv::child(root, "m_vLightmapUvScale"@) {
                Some(Value::Array(a)) => if a@.len() >= 2 {
                    &&& w.lightmap_uv_scale[0] == or(number_in(Value::Array(a), 0), 0x3F80_0000)
                    &&& w.lightmap_uv_scale[1] == or(number_in(Value::Array(a), 1), 0x3F80_0000)
                } else {
                    w.lightmap_uv_scale == seq![0x3F80_0000u32, 0x3F80_0000u32]
                },
                _ => w.lightmap_uv_scale == seq![0x3F80_0000u32, 0x3F80_0000u32],
            }
        }),
{
}

/// How many of the first `n` fragments have a transform of their own.
pub open spec fn claims(fragments: Seq<FragmentView>, n: int) -> nat {
    fragments.take(n).filter(|f: FragmentView| f.has_transform).len()
}

/// The slot of a fragment is the number of those before it that have a transform.
proof fn lemma_claims(fragments: Seq<FragmentView>, n: int)
    requires
        0 <= n <= fragments.len(),
    ensures
        crate::world::slots_before(fragments, n) == claims(fragments, n),
    decreases n,
{
    reveal(Seq::filter);
    if n > 0 {
        lemma_claims(fragments, n - 1);
        assert(fragments.take(n).drop_last() =~= fragments.take(n - 1));
        assert(fragments.take(n).last() == fragments[n - 1]);
    }
}

/// A fragment that is placed is placed as it says: with its own draw call, its own tint, its own
/// probe volume, and the transform whose place is the number of fragments before it that have one. One
/// without a transform is not moved, and one without a tint is white. It is left out only where its
/// transform is collapsed, where it is not of the finest level, or where it has no draw call.
pub proof fn a_fragment_is_placed_as_it_says(agg: AggregateView, collapsed: Seq<bool>, i: int)
    requires
        0 <= i < agg.fragments.len(),
    ensures
        ({
            let f = agg.fragments[i];
            let slot = claims(agg.fragments, i) as int;
            match crate::world::placement_of(agg, collapsed, i) {
                Some(p) => {
                    &&& f.draw_call_index <= usize::MAX ==> p.draw_call_index == f.draw_call_index
                    &&& f.has_transform ==> p.transform == agg.fragment_transforms[slot]
                        && !collapsed[slot]
                    &&& !f.has_transform ==> p.transform == crate::world::IDENTITY_TRANSFORM@
                    &&& match f.tint {
                        Some(t) => p.tint == t,
                        None => p.tint == seq![0x437F_0000u32, 0x437F_0000u32, 0x437F_0000u32],
                    }
                    &&& p.light_probe_volume_handshake == f.light_probe_volume_handshake
                },
                None => {
                    ||| f.draw_call_index < 0
                    ||| f.has_transform && collapsed[slot]
                    ||| f.lod_group_mask != 0 && !crate::model::has_level(
                        f.lod_group_mask,
                        crate::model::lowest_of(
                            crate::world::setup_mask(agg.fragments, f.lod_setup_index),
                        ),
                    )
                },
            }
        }),
{
    lemma_claims(agg.fragments, i);
}

/// The levels of a setup are those that any of its fragments has.
pub proof fn a_setup_has_the_levels_of_its_fragments(fragments: Seq<FragmentView>, setup: i64, l: u64)
    requires
        l < 64,
    ensures
        crate::laws::meshes::bit(crate::world::setup_mask(fragments, setup), l) == exists|i: int|
            0 <= i < fragments.len() && (#[trigger] fragments[i]).lod_setup_index == setup
                && crate::laws::meshes::bit(fragments[i].lod_group_mask, l),
    decreases fragments.len(),
{
    if fragments.len() == 0 {
        assert(((0i64 as u64) >> l) & 1u64 == 0u64) by (bit_vector);
    } else {
        let front = fragments.drop_last();
        a_setup_has_the_levels_of_its_fragments(front, setup, l);
        let a = crate::world::setup_mask(front, setup);
        let b = fragments.last().lod_group_mask;
        assert((((a | b) as u64) >> l) & 1u64 == 1u64 <==> (((a as u64) >> l) & 1u64 == 1u64) || (((
        b as u64) >> l) & 1u64 == 1u64)) by (bit_vector);
        if crate::laws::meshes::bit(a, l) {
            let i = choose|i: int|
                0 <= i < front.len() && (#[trigger] front[i]).lod_setup_index == setup
                    && crate::laws::meshes::bit(front[i].lod_group_mask, l);
            assert(fragments[i] == front[i]);
        }
        if fragments.last().lod_setup_index == setup && crate::laws::meshes::bit(b, l) {
            assert(fragments[fragments.len() - 1] == fragments.last());
        }
        if exists|i: int|
            0 <= i < fragments.len() && (#[trigger] fragments[i]).lod_setup_index == setup
                && crate::laws::meshes::bit(fragments[i].lod_group_mask, l) {
            let i = choose|i: int|
                0 <= i < fragments.len() && (#[trigger] fragments[i]).lod_setup_index == setup
                    && crate::laws::meshes::bit(fragments[i].lod_group_mask, l);
            if i < front.len() {
                assert(front[i] == fragments[i]);
            }
        }
    }
}

/// The placements of an aggregate are those of its fragments in order: each fragment that is placed
/// adds its own behind those before it, and any other adds nothing.
pub proof fn fragments_are_placed_in_order(agg: AggregateView, collapsed: Seq<bool>, n: int, i: int)
    requires
        0 <= i < n <= agg.fragments.len(),
        crate::world::placements_of(agg, collapsed, n) is Ok,
    ensures
        ({
            let all = crate::world::placements_of(agg, collapsed, n)->Ok_0;
            let before = crate::world::placements_of(agg, collapsed, i);
            let after = crate::world::placements_of(agg, collapsed, i + 1);
            &&& before is Ok
            &&& after is Ok
            &&& before->Ok_0.is_prefix_of(all)
            &&& after->Ok_0.is_prefix_of(all)
            &&& match crate::world::placement_of(agg, collapsed, i) {
                Some(p) => {
                    &&& after->Ok_0.len() == before->Ok_0.len() + 1
                    &&& all[before->Ok_0.len() as int] == p
                },
                None => after->Ok_0.len() == before->Ok_0.len(),
            }
        }),
    decreases n,
{
    let all = crate::world::placements_of(agg, collapsed, n)->Ok_0;
    let last = crate::world::placements_of(agg, collapsed, n - 1);
    assert(last is Ok);
    assert(last->Ok_0.is_prefix_of(all));
    if i < n - 1 {
        fragments_are_placed_in_order(agg, collapsed, n - 1, i);
        let before = crate::world::placements_of(agg, collapsed, i)->Ok_0;
        let after = crate::world::placements_of(agg, collapsed, i + 1)->Ok_0;
        assert(before.is_prefix_of(all)) by {
            assert forall|k: int| 0 <= k < before.len() implies before[k] == all[k] by {
                assert(before[k] == last->Ok_0[k]);
            }
            assert(before =~= all.subrange(0, before.len() as int));
        }
        assert(after.is_prefix_of(all)) by {
            assert forall|k: int| 0 <= k < after.len() implies after[k] == all[k] by {
                assert(after[k] == last->Ok_0[k]);
            }
            assert(after =~= all.subrange(0, after.len() as int));
        }
    } else {
        assert(all.is_prefix_of(all));
    }
}

/// An aggregate is refused exactly where a fragment claims a transform that is not there.
pub proof fn only_a_missing_transform_is_refused(agg: AggregateView, collapsed: Seq<bool>, n: int)
    requires
        0 <= n <= agg.fragments.len(),
    ensures
        crate::world::placements_of(agg, collapsed, n) is Err == exists|i: int|
            0 <= i < n && (#[trigger] agg.fragments[i]).has_transform && claims(agg.fragments, i)
                >= agg.fragment_transforms.len(),
    decreases n,
{
    if n > 0 {
        only_a_missing_transform_is_refused(agg, collapsed, n - 1);
        lemma_claims(agg.fragments, n - 1);
    }
}

} // verus!
