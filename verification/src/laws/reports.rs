//! What the report counts and says, in terms of what happened.

use crate::json::JsonView;
use crate::order::RankView;
use crate::report::{ClassStats, Counts, LightingClass, Outcome, ReportView, ToolsDrop};
use vstd::prelude::*;

verus! {

/// Where the search for a name ends.
proof fn lemma_place<T>(v: Seq<(Seq<char>, T)>, name: Seq<char>, from: int)
    requires
        0 <= from <= v.len(),
    ensures
        match crate::report::place_of(v, name, from) {
            Some(i) => from <= i < v.len() && v[i].0 == name && forall|k: int|
                from <= k < i ==> (#[trigger] v[k]).0 != name,
            None => forall|k: int| from <= k < v.len() ==> (#[trigger] v[k]).0 != name,
        },
    decreases v.len() - from,
{
    if from < v.len() && v[from].0 != name {
        lemma_place(v, name, from + 1);
    }
}

/// The search ends at the first that has the name.
proof fn lemma_place_is<T>(v: Seq<(Seq<char>, T)>, name: Seq<char>, from: int, i: int)
    requires
        0 <= from <= i < v.len(),
        v[i].0 == name,
        forall|k: int| from <= k < i ==> (#[trigger] v[k]).0 != name,
    ensures
        crate::report::place_of(v, name, from) == Some(i),
    decreases i - from,
{
    if from < i {
        assert(v[from].0 != name);
        lemma_place_is(v, name, from + 1, i);
    }
}

/// A name has the value of the first entry with it, else the default.
pub proof fn a_name_has_the_value_of_its_first_entry<T>(
    v: Seq<(Seq<char>, T)>,
    name: Seq<char>,
    default: T,
    i: int,
)
    ensures
        0 <= i < v.len() && v[i].0 == name && (forall|k: int|
            0 <= k < i ==> (#[trigger] v[k]).0 != name) ==> crate::report::value_or(
            v,
            name,
            default,
        ) == v[i].1,
        (forall|k: int| 0 <= k < v.len() ==> (#[trigger] v[k]).0 != name)
            ==> crate::report::value_or(v, name, default) == default,
{
    lemma_place(v, name, 0);
    if 0 <= i < v.len() && v[i].0 == name && (forall|k: int|
        0 <= k < i ==> (#[trigger] v[k]).0 != name) {
        lemma_place_is(v, name, 0, i);
    }
}

/// Setting a value gives its name that value, and no other name another.
pub proof fn a_value_that_is_set_is_there<T>(
    v: Seq<(Seq<char>, T)>,
    name: Seq<char>,
    value: T,
    other: Seq<char>,
    default: T,
)
    ensures
        ({
            let after = crate::report::with_value(v, name, value);
            &&& crate::report::value_or(after, name, default) == value
            &&& other != name ==> crate::report::value_or(after, other, default)
                == crate::report::value_or(v, other, default)
            &&& v.len() <= after.len() <= v.len() + 1
        }),
{
    let after = crate::report::with_value(v, name, value);
    lemma_place(v, name, 0);
    match crate::report::place_of(v, name, 0) {
        Some(i) => {
            lemma_place_is(after, name, 0, i);
        },
        None => {
            lemma_place_is(after, name, 0, v.len() as int);
        },
    }
    if other != name {
        lemma_place(v, other, 0);
        match crate::report::place_of(v, other, 0) {
            Some(j) => {
                lemma_place_is(after, other, 0, j);
            },
            None => {
                lemma_place(after, other, 0);
                if crate::report::place_of(after, other, 0) is Some {
                    let j = crate::report::place_of(after, other, 0)->Some_0;
                    if j < v.len() {
                        assert(v[j].0 == other);
                    }
                }
            },
        }
    }
}

/// Whether all but what a draw counts is the same.
pub open spec fn counts_draws_only(c: Counts, d: Counts) -> bool {
    &&& d.scene_objects_total == c.scene_objects_total
    &&& d.scene_objects_placed == c.scene_objects_placed
    &&& d.aggregates_total == c.aggregates_total
    &&& d.aggregates_fallback == c.aggregates_fallback
    &&& d.fragments_total == c.fragments_total
    &&& d.fragments_placed == c.fragments_placed
    &&& d.probe_sample_failures == c.probe_sample_failures
    &&& d.probe_volumes_skipped == c.probe_volumes_skipped
}

/// A draw call counts once, with its triangles, in all and under how it is lit.
pub proof fn a_draw_counts_under_its_light(c: Counts, triangles: u64, lighting: LightingClass)
    requires
        crate::report::can_draw(c, triangles),
        c.triangles == c.lightmap_triangles + c.unlit_triangles + c.probe_triangles,
    ensures
        ({
            let d = crate::report::counts_after_draw(c, triangles, lighting);
            let n = |l: LightingClass|
                if lighting == l {
                    1int
                } else {
                    0
                };
            &&& d.triangles == c.triangles + triangles
            &&& d.lightmap_draw_calls == c.lightmap_draw_calls + n(LightingClass::Lightmap)
            &&& d.unlit_draw_calls == c.unlit_draw_calls + n(LightingClass::Unlit)
            &&& d.probe_draw_calls == c.probe_draw_calls + n(LightingClass::Probe)
            &&& d.lightmap_triangles == c.lightmap_triangles + if lighting == LightingClass::Lightmap {
                triangles as int
            } else {
                0
            }
            &&& d.unlit_triangles == c.unlit_triangles + if lighting == LightingClass::Unlit {
                triangles as int
            } else {
                0
            }
            &&& d.probe_triangles == c.probe_triangles + if lighting == LightingClass::Probe {
                triangles as int
            } else {
                0
            }
            &&& counts_draws_only(c, d)
        }),
{
}

/// A draw call adds its triangles to those of its material, and one that is left out to those that were,
/// and nothing to any other.
pub proof fn triangles_count_under_their_material(
    r: ReportView,
    material: Seq<char>,
    triangles: u64,
    lighting: LightingClass,
    other: Seq<char>,
)
    requires
        crate::report::value_or(r.per_material, material, 0u64) + triangles <= u64::MAX,
        crate::report::value_or(
            r.tools_dropped,
            material,
            crate::report::no_drop(),
        ).draw_calls < u32::MAX,
        crate::report::value_or(
            r.tools_dropped,
            material,
            crate::report::no_drop(),
        ).triangles + triangles <= u64::MAX,
    ensures
        ({
            let d = crate::report::after_draw(r, material, triangles, lighting);
            &&& crate::report::value_or(d.per_material, material, 0u64) == crate::report::value_or(
                r.per_material,
                material,
                0u64,
            ) + triangles
            &&& other != material ==> crate::report::value_or(d.per_material, other, 0u64)
                == crate::report::value_or(r.per_material, other, 0u64)
            &&& d.counts == crate::report::counts_after_draw(r.counts, triangles, lighting)
            &&& d.tools_dropped == r.tools_dropped
            &&& d.class_stats == r.class_stats
            &&& d.missing_resources == r.missing_resources
            &&& d.material_extras == r.material_extras
            &&& d.hidden_entities == r.hidden_entities
            &&& d.unlit_used == r.unlit_used
        }),
        ({
            let d = crate::report::after_tools_drop(r, material, triangles);
            let none = ToolsDrop { draw_calls: 0, triangles: 0 };
            let was = crate::report::value_or(r.tools_dropped, material, none);
            let is = crate::report::value_or(d.tools_dropped, material, none);
            &&& is.draw_calls == was.draw_calls + 1
            &&& is.triangles == was.triangles + triangles
            &&& other != material ==> crate::report::value_or(d.tools_dropped, other, none)
                == crate::report::value_or(r.tools_dropped, other, none)
            &&& d.counts == r.counts
            &&& d.per_material == r.per_material
            &&& d.class_stats == r.class_stats
            &&& d.missing_resources == r.missing_resources
            &&& d.material_extras == r.material_extras
            &&& d.hidden_entities == r.hidden_entities
            &&& d.unlit_used == r.unlit_used
        }),
{
    a_value_that_is_set_is_there(
        r.per_material,
        material,
        (crate::report::value_or(r.per_material, material, 0) + triangles) as u64,
        other,
        0u64,
    );
    let none = crate::report::no_drop();
    let was = crate::report::value_or(r.tools_dropped, material, none);
    a_value_that_is_set_is_there(
        r.tools_dropped,
        material,
        ToolsDrop {
            draw_calls: (was.draw_calls + 1) as u32,
            triangles: (was.triangles + triangles) as u64,
        },
        other,
        none,
    );
}

/// An entity counts once in its class, under what became of it; all but one without a model count as
/// having one.
pub proof fn an_entity_counts_under_what_became_of_it(s: ClassStats, outcome: Outcome)
    requires
        crate::report::can_count(s, outcome),
        s.with_model <= s.total,
        s.drawn <= s.total && s.preview <= s.total && s.hidden <= s.total,
        s.not_found <= s.total && s.no_mesh <= s.total,
    ensures
        ({
            let t = crate::report::stats_after(s, outcome);
            let n = |b: bool|
                if b {
                    1int
                } else {
                    0
                };
            &&& t.total == s.total + 1
            &&& t.with_model == s.with_model + n(outcome != Outcome::NoModel)
            &&& t.preview == s.preview + n(outcome == Outcome::Preview)
            &&& t.hidden == s.hidden + n(outcome == Outcome::Hidden)
            &&& t.not_found == s.not_found + n(outcome == Outcome::NotFound)
            &&& t.no_mesh == s.no_mesh + n(outcome == Outcome::Placed(0))
            &&& t.drawn == s.drawn + n(outcome matches Outcome::Placed(k) && k > 0)
            &&& t.triangles == s.triangles + match outcome {
                Outcome::Placed(k) => k as int,
                _ => 0,
            }
        }),
{
}

/// An entity that is hidden, or is a preview, is listed with why; no other is. It counts in its class and
/// in no other.
pub proof fn an_entity_counts_in_its_class(
    r: ReportView,
    class: Seq<char>,
    target: Option<Seq<char>>,
    model: Seq<char>,
    outcome: Outcome,
    other: Seq<char>,
)
    ensures
        ({
            let d = crate::report::after_entity(r, class, target, model, outcome);
            let none = crate::report::no_stats();
            let listed = outcome == Outcome::Preview || outcome == Outcome::Hidden;
            &&& crate::report::value_or(d.class_stats, class, none) == crate::report::stats_after(
                crate::report::value_or(r.class_stats, class, none),
                outcome,
            )
            &&& other != class ==> crate::report::value_or(d.class_stats, other, none)
                == crate::report::value_or(r.class_stats, other, none)
            &&& !listed ==> d.hidden_entities == r.hidden_entities
            &&& listed ==> d.hidden_entities.len() == r.hidden_entities.len() + 1 && is_listed(
                d.hidden_entities.last(),
                class,
                target,
                model,
                if outcome == Outcome::Preview {
                    "preview model"@
                } else {
                    "hidden (startdisabled/enabled/renderamt/rendermode)"@
                },
            )
            &&& d.counts == r.counts
            &&& d.per_material == r.per_material
            &&& d.tools_dropped == r.tools_dropped
            &&& d.missing_resources == r.missing_resources
            &&& d.material_extras == r.material_extras
            &&& d.unlit_used == r.unlit_used
        }),
{
    let none = crate::report::no_stats();
    a_value_that_is_set_is_there(
        r.class_stats,
        class,
        crate::report::stats_after(crate::report::value_or(r.class_stats, class, none), outcome),
        other,
        none,
    );
}

/// Whether a document lists an entity that is not drawn, and why.
pub open spec fn is_listed(
    j: JsonView,
    class: Seq<char>,
    target: Option<Seq<char>>,
    model: Seq<char>,
    why: Seq<char>,
) -> bool {
    j matches JsonView::Object(m) && {
        &&& m.len() == 4
        &&& m[0] == ("classname"@, JsonView::Str(class))
        &&& m[1].0 == "targetname"@
        &&& target matches Some(t) ==> m[1].1 == JsonView::Str(t)
        &&& target is None ==> m[1].1 == JsonView::Null
        &&& m[2] == ("model"@, JsonView::Str(model))
        &&& m[3] == ("reason"@, JsonView::Str(why))
    }
}

/// A report begins with nothing.
pub proof fn a_report_begins_with_nothing()
    ensures
        ({
            let r = crate::report::empty_report();
            &&& r.counts.triangles == 0 && r.counts.scene_objects_total == 0
                && r.counts.scene_objects_placed == 0
            &&& r.counts.aggregates_total == 0 && r.counts.aggregates_fallback == 0
            &&& r.counts.fragments_total == 0 && r.counts.fragments_placed == 0
            &&& r.counts.lightmap_draw_calls == 0 && r.counts.lightmap_triangles == 0
            &&& r.counts.unlit_draw_calls == 0 && r.counts.unlit_triangles == 0
            &&& r.counts.probe_draw_calls == 0 && r.counts.probe_triangles == 0
            &&& r.counts.probe_sample_failures == 0 && r.counts.probe_volumes_skipped == 0
            &&& r.per_material.len() == 0 && r.tools_dropped.len() == 0
            &&& r.missing_resources.len() == 0 && r.class_stats.len() == 0
            &&& r.material_extras.len() == 0 && r.hidden_entities.len() == 0
            &&& !r.unlit_used
        }),
{
}

/// All that is put in order comes out of it.
proof fn lemma_ordered(v: Seq<RankView>, i: int)
    requires
        0 <= i < v.len(),
    ensures
        crate::order::in_order(v).len() == v.len(),
        v.contains(crate::order::in_order(v)[i]),
{
    broadcast use vstd::seq_lib::group_to_multiset_ensures;

    crate::order::order_is_kept(v);
    let o = crate::order::in_order(v);
    assert(o.contains(o[i]));
    assert(o.to_multiset().count(o[i]) > 0);
    assert(v.to_multiset().count(o[i]) > 0);
}

/// The materials are listed with their triangles, those with the most first, and those with as many by
/// their names.
pub proof fn materials_are_listed_by_their_triangles(v: Seq<(Seq<char>, u64)>, i: int)
    requires
        0 <= i < v.len() <= usize::MAX,
    ensures
        ({
            let l = crate::report::materials_json(v);
            &&& l.len() == v.len()
            &&& exists|k: int|
                0 <= k < v.len() && l[i] == JsonView::Object(
                    seq![
                        ("material"@, JsonView::Str((#[trigger] v[k]).0)),
                        ("triangles"@, JsonView::UInt(v[k].1)),
                    ],
                )
        }),
{
    let r = crate::report::ranks_by_count(v);
    lemma_ordered(r, i);
    let o = crate::order::in_order(r);
    let k = r.index_of(o[i]);
    assert(v[k].0 == o[i].name && v[k].1 == o[i].count);
    let l = crate::report::materials_json(v);
    assert(l[i]->Object_0 =~= seq![
        ("material"@, JsonView::Str(v[k].0)),
        ("triangles"@, JsonView::UInt(v[k].1)),
    ]);
}

/// What was left out is listed by the materials' names, each with what was left out of it.
pub proof fn what_was_left_out_is_listed_by_name(v: Seq<(Seq<char>, ToolsDrop)>, i: int)
    requires
        0 <= i < v.len() <= usize::MAX,
    ensures
        ({
            let l = crate::report::drops_json(v);
            &&& l.len() == v.len()
            &&& exists|k: int|
                0 <= k < v.len() && l[i] == JsonView::Object(
                    seq![
                        ("material"@, JsonView::Str((#[trigger] v[k]).0)),
                        ("drawCalls"@, JsonView::UInt(v[k].1.draw_calls as u64)),
                        ("triangles"@, JsonView::UInt(v[k].1.triangles)),
                    ],
                )
        }),
{
    let r = crate::report::ranks_by_name(v);
    lemma_ordered(r, i);
    let o = crate::order::in_order(r);
    let k = r.index_of(o[i]);
    assert(v[k].0 == o[i].name && o[i].index == k);
    let l = crate::report::drops_json(v);
    assert(l[i]->Object_0 =~= seq![
        ("material"@, JsonView::Str(v[k].0)),
        ("drawCalls"@, JsonView::UInt(v[k].1.draw_calls as u64)),
        ("triangles"@, JsonView::UInt(v[k].1.triangles)),
    ]);
}

/// The classes are listed by their names, each with what became of its entities.
pub proof fn classes_are_listed_by_name(v: Seq<(Seq<char>, ClassStats)>, i: int)
    requires
        0 <= i < v.len() <= usize::MAX,
    ensures
        ({
            let l = crate::report::classes_json(v);
            &&& l.len() == v.len()
            &&& exists|k: int|
                0 <= k < v.len() && l[i] == JsonView::Object(
                    seq![
                        ("classname"@, JsonView::Str((#[trigger] v[k]).0)),
                        ("total"@, JsonView::UInt(v[k].1.total as u64)),
                        ("withModel"@, JsonView::UInt(v[k].1.with_model as u64)),
                        ("drawn"@, JsonView::UInt(v[k].1.drawn as u64)),
                        ("triangles"@, JsonView::UInt(v[k].1.triangles)),
                        ("reasons"@, crate::report::reasons_json(v[k].1)),
                    ],
                )
        }),
{
    let r = crate::report::ranks_by_name(v);
    lemma_ordered(r, i);
    let o = crate::order::in_order(r);
    let k = r.index_of(o[i]);
    assert(v[k].0 == o[i].name && o[i].index == k);
    let l = crate::report::classes_json(v);
    assert(l[i]->Object_0 =~= seq![
        ("classname"@, JsonView::Str(v[k].0)),
        ("total"@, JsonView::UInt(v[k].1.total as u64)),
        ("withModel"@, JsonView::UInt(v[k].1.with_model as u64)),
        ("drawn"@, JsonView::UInt(v[k].1.drawn as u64)),
        ("triangles"@, JsonView::UInt(v[k].1.triangles)),
        ("reasons"@, crate::report::reasons_json(v[k].1)),
    ]);
}

/// The reasons for which entities of a class are not drawn are counted where there are any.
pub proof fn reasons_are_counted(s: ClassStats)
    ensures
        crate::report::reasons_json(s) matches JsonView::Object(m) && {
            &&& s.preview > 0 ==> m.contains(
                ("preview model"@, JsonView::UInt(s.preview as u64)),
            )
            &&& s.hidden > 0 ==> m.contains(
                (
                    "hidden (startdisabled/enabled/renderamt/rendermode)"@,
                    JsonView::UInt(s.hidden as u64),
                ),
            )
            &&& s.not_found > 0 ==> m.contains(
                ("model not found"@, JsonView::UInt(s.not_found as u64)),
            )
            &&& s.no_mesh > 0 ==> m.contains(
                ("no render mesh (physics-only model)"@, JsonView::UInt(s.no_mesh as u64)),
            )
            &&& m.len() == (if s.preview > 0 {
                1int
            } else {
                0
            }) + (if s.hidden > 0 {
                1int
            } else {
                0
            }) + (if s.not_found > 0 {
                1int
            } else {
                0
            }) + (if s.no_mesh > 0 {
                1int
            } else {
                0
            })
        },
{
    let m = crate::report::reasons_json(s)->Object_0;
    let a = if s.preview > 0 {
        1int
    } else {
        0
    };
    let b = if s.hidden > 0 {
        a + 1
    } else {
        a
    };
    let c = if s.not_found > 0 {
        b + 1
    } else {
        b
    };
    if s.preview > 0 {
        assert(m[0] == (crate::report::WHY_PREVIEW@, JsonView::UInt(s.preview as u64)));
    }
    if s.hidden > 0 {
        assert(m[a] == (crate::report::WHY_HIDDEN@, JsonView::UInt(s.hidden as u64)));
    }
    if s.not_found > 0 {
        assert(m[b] == (crate::report::WHY_NOT_FOUND@, JsonView::UInt(s.not_found as u64)));
    }
    if s.no_mesh > 0 {
        assert(m[c] == (crate::report::WHY_NO_MESH@, JsonView::UInt(s.no_mesh as u64)));
    }
}

/// The entities of classes are counted class by class.
pub proof fn entities_are_counted_class_by_class(
    v: Seq<(Seq<char>, ClassStats)>,
    e: (Seq<char>, ClassStats),
)
    ensures
        crate::report::entity_total(v.push(e)) == crate::report::entity_total(v) + e.1.total,
        crate::report::entity_total(Seq::empty()) == 0,
{
    assert(v.push(e).drop_last() =~= v);
}

/// A member that is set is there, and no other changes.
pub proof fn a_member_that_is_set_is_there(
    m: Seq<(Seq<char>, JsonView)>,
    key: Seq<char>,
    v: JsonView,
    other: Seq<char>,
)
    ensures
        ({
            let after = crate::json::with_member(m, key, v);
            &&& crate::json::field_of(JsonView::Object(after), key) == Some(v)
            &&& other != key ==> crate::json::field_of(JsonView::Object(after), other)
                == crate::json::field_of(JsonView::Object(m), other)
        }),
{
    let after = crate::json::with_member(m, key, v);
    lemma_index(m, key, 0);
    match crate::json::index_from(m, key, 0) {
        Some(i) => lemma_index_is(after, key, 0, i),
        None => lemma_index_is(after, key, 0, m.len() as int),
    }
    if other != key {
        lemma_index(m, other, 0);
        match crate::json::index_from(m, other, 0) {
            Some(j) => lemma_index_is(after, other, 0, j),
            None => {
                lemma_index(after, other, 0);
                if crate::json::index_from(after, other, 0) is Some {
                    let j = crate::json::index_from(after, other, 0)->Some_0;
                    if j < m.len() {
                        assert(m[j].0 == other);
                    }
                }
            },
        }
    }
}

/// Where the search for a member ends.
proof fn lemma_index(m: Seq<(Seq<char>, JsonView)>, key: Seq<char>, from: int)
    requires
        0 <= from <= m.len(),
    ensures
        match crate::json::index_from(m, key, from) {
            Some(i) => from <= i < m.len() && m[i].0 == key && forall|k: int|
                from <= k < i ==> (#[trigger] m[k]).0 != key,
            None => forall|k: int| from <= k < m.len() ==> (#[trigger] m[k]).0 != key,
        },
    decreases m.len() - from,
{
    if from < m.len() && m[from].0 != key {
        lemma_index(m, key, from + 1);
    }
}

/// It ends at the first member with the key.
proof fn lemma_index_is(m: Seq<(Seq<char>, JsonView)>, key: Seq<char>, from: int, i: int)
    requires
        0 <= from <= i < m.len(),
        m[i].0 == key,
        forall|k: int| from <= k < i ==> (#[trigger] m[k]).0 != key,
    ensures
        crate::json::index_from(m, key, from) == Some(i),
    decreases i - from,
{
    if from < i {
        assert(m[from].0 != key);
        lemma_index_is(m, key, from + 1, i);
    }
}

} // verus!
