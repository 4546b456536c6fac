//! What an export reports: what was drawn and how it is lit, what was left out and why.

use crate::json::{add_item, Json, Members};
use crate::order::{put_in_order, Ranked};
use crate::text::same;
use vstd::prelude::*;

verus! {

/// Where a draw call has its indirect light from.
#[derive(Debug, Clone, Copy, PartialEq, Eq, Structural)]
pub enum LightingClass {
    /// From the lightmaps.
    Lightmap,
    /// From nowhere.
    Unlit,
    /// From the probes, baked into its vertices.
    Probe,
}

/// The name of a class.
pub open spec fn lighting_name(c: LightingClass) -> Seq<char> {
    match c {
        LightingClass::Lightmap => "lightmap"@,
        LightingClass::Unlit => "unlit"@,
        LightingClass::Probe => "probe"@,
    }
}

impl LightingClass {
    /// The name of the class.
    pub fn as_str(self) -> (r: &'static str)
        ensures
            r@ == lighting_name(self),
    {
        match self {
            LightingClass::Lightmap => "lightmap",
            LightingClass::Unlit => "unlit",
            LightingClass::Probe => "probe",
        }
    }
}

/// Named values as plain values.
pub open spec fn named_views<T>(v: Seq<(String, T)>) -> Seq<(Seq<char>, T)> {
    Seq::new(v.len(), |i: int| (v[i].0@, v[i].1))
}

/// The first place of a name, from `from` on.
pub open spec fn place_of<T>(v: Seq<(Seq<char>, T)>, name: Seq<char>, from: int) -> Option<int>
    decreases v.len() - from,
{
    if from < 0 || from >= v.len() {
        None
    } else if v[from].0 == name {
        Some(from)
    } else {
        place_of(v, name, from + 1)
    }
}

/// The value under a name.
pub open spec fn value_or<T>(v: Seq<(Seq<char>, T)>, name: Seq<char>, default: T) -> T {
    match place_of(v, name, 0) {
        Some(i) => v[i].1,
        None => default,
    }
}

/// Named values with one set.
pub open spec fn with_value<T>(v: Seq<(Seq<char>, T)>, name: Seq<char>, value: T) -> Seq<
    (Seq<char>, T),
> {
    match place_of(v, name, 0) {
        Some(i) => v.update(i, (name, value)),
        None => v.push((name, value)),
    }
}

/// Whether no name stands twice.
pub open spec fn names_differ<T>(v: Seq<(Seq<char>, T)>) -> bool {
    forall|i: int, j: int| 0 <= i < j < v.len() ==> (#[trigger] v[i]).0 != (#[trigger] v[j]).0
}

/// Whether a name stands in a list.
pub open spec fn has_name<T>(v: Seq<(Seq<char>, T)>, name: Seq<char>) -> bool {
    exists|i: int| 0 <= i < v.len() && (#[trigger] v[i]).0 == name
}

/// Whether no name of one list stands in another.
pub open spec fn names_apart<T, U>(v: Seq<(Seq<char>, T)>, w: Seq<(Seq<char>, U)>) -> bool {
    forall|i: int, j: int|
        0 <= i < v.len() && 0 <= j < w.len() ==> (#[trigger] v[i]).0 != (#[trigger] w[j]).0
}

/// What the place of a name is.
proof fn lemma_place<T>(v: Seq<(Seq<char>, T)>, name: Seq<char>, from: int)
    requires
        0 <= from <= v.len(),
    ensures
        match place_of(v, name, from) {
            Some(i) => from <= i < v.len() && v[i].0 == name,
            None => forall|i: int| from <= i < v.len() ==> (#[trigger] v[i]).0 != name,
        },
    decreases v.len() - from,
{
    if from < v.len() && v[from].0 != name {
        lemma_place(v, name, from + 1);
    }
}

/// Setting a value makes no name stand twice.
pub proof fn names_stay_different<T>(v: Seq<(Seq<char>, T)>, name: Seq<char>, value: T)
    requires
        names_differ(v),
    ensures
        names_differ(with_value(v, name, value)),
{
    lemma_place(v, name, 0);
    let after = with_value(v, name, value);
    assert forall|i: int, j: int| 0 <= i < j < after.len() implies (#[trigger] after[i]).0 != (
    #[trigger] after[j]).0 by {
        if j < v.len() {
            assert(after[i].0 == v[i].0 && after[j].0 == v[j].0);
        } else {
            assert(after[i] == v[i]);
        }
    }
}

/// Setting a value brings in no name but its own.
pub proof fn setting_brings_one_name<T>(v: Seq<(Seq<char>, T)>, name: Seq<char>, value: T)
    ensures
        forall|other: Seq<char>| #[trigger]
            has_name(with_value(v, name, value), other) == (has_name(v, other) || other == name),
{
    lemma_place(v, name, 0);
    let after = with_value(v, name, value);
    assert forall|other: Seq<char>| #[trigger]
        has_name(after, other) == (has_name(v, other) || other == name) by {
        match place_of(v, name, 0) {
            Some(k) => {
                assert(after[k].0 == name);
                assert forall|i: int| 0 <= i < v.len() implies (#[trigger] v[i]).0 == after[i].0 by {}
                if has_name(after, other) {
                    let i = choose|i: int| 0 <= i < after.len() && (#[trigger] after[i]).0 == other;
                    assert(v[i].0 == other);
                }
                if has_name(v, other) {
                    let i = choose|i: int| 0 <= i < v.len() && (#[trigger] v[i]).0 == other;
                    assert(after[i].0 == other);
                }
            },
            None => {
                assert(after[v.len() as int].0 == name);
                if has_name(after, other) {
                    let i = choose|i: int| 0 <= i < after.len() && (#[trigger] after[i]).0 == other;
                    if i < v.len() {
                        assert(v[i].0 == other);
                    }
                }
                if has_name(v, other) {
                    let i = choose|i: int| 0 <= i < v.len() && (#[trigger] v[i]).0 == other;
                    assert(after[i].0 == other);
                }
            },
        }
    }
}

/// The first place of a name.
fn find_place<T>(v: &Vec<(String, T)>, name: &str) -> (r: Option<usize>)
    ensures
        match r {
            Some(i) => place_of(named_views(v@), name@, 0) == Some(i as int) && i < v@.len(),
            None => place_of(named_views(v@), name@, 0) is None,
        },
{
    let ghost all = named_views(v@);
    let mut i: usize = 0;
    while i < v.len()
        invariant
            i <= v@.len(),
            all == named_views(v@),
            place_of(all, name@, 0) == place_of(all, name@, i as int),
        decreases v@.len() - i,
    {
        assert(all[i as int].0 == v@[i as int].0@);
        if same(v[i].0.as_str(), name) {
            return Some(i);
        }
        i += 1;
    }
    None
}

/// The value under a name.
fn get_value<T: Copy>(v: &Vec<(String, T)>, name: &str, default: T) -> (r: T)
    ensures
        r == value_or(named_views(v@), name@, default),
{
    match find_place(v, name) {
        Some(i) => {
            assert(named_views(v@)[i as int].1 == v@[i as int].1);
            v[i].1
        },
        None => default,
    }
}

/// Sets the value under a name.
fn set_value<T>(v: &mut Vec<(String, T)>, name: &str, value: T)
    ensures
        named_views(final(v)@) == with_value(named_views(old(v)@), name@, value),
{
    let ghost before = named_views(v@);
    match find_place(v, name) {
        Some(i) => {
            let entry: (String, T) = (name.to_owned(), value);
            assert(named_views(v@.update(i as int, entry)) =~= before.update(
                i as int,
                (name@, value),
            ));
            v.set(i, entry);
        },
        None => {
            let entry: (String, T) = (name.to_owned(), value);
            assert(named_views(v@.push(entry)) =~= before.push((name@, value)));
            v.push(entry);
        },
    }
}

/// The counters of an export.
#[derive(Debug, Clone, Copy, PartialEq, Eq, Structural)]
pub struct Counts {
    /// The triangles that are drawn, one by one for each instance of a mesh.
    pub triangles: u64,
    pub scene_objects_total: u32,
    pub scene_objects_placed: u32,
    pub aggregates_total: u32,
    pub aggregates_fallback: u32,
    pub fragments_total: u32,
    pub fragments_placed: u32,
    pub lightmap_draw_calls: u32,
    pub lightmap_triangles: u64,
    pub unlit_draw_calls: u32,
    pub unlit_triangles: u64,
    pub probe_draw_calls: u32,
    pub probe_triangles: u64,
    /// The vertices for which no probe could be read.
    pub probe_sample_failures: u32,
    /// The entities that lack something that a probe volume has.
    pub probe_volumes_skipped: u32,
}

/// Counters at nought.
pub open spec fn no_counts() -> Counts {
    Counts {
        triangles: 0,
        scene_objects_total: 0,
        scene_objects_placed: 0,
        aggregates_total: 0,
        aggregates_fallback: 0,
        fragments_total: 0,
        fragments_placed: 0,
        lightmap_draw_calls: 0,
        lightmap_triangles: 0,
        unlit_draw_calls: 0,
        unlit_triangles: 0,
        probe_draw_calls: 0,
        probe_triangles: 0,
        probe_sample_failures: 0,
        probe_volumes_skipped: 0,
    }
}

/// What was left out because its material is only for tools.
#[derive(Debug, Clone, Copy, PartialEq, Eq, Structural)]
pub struct ToolsDrop {
    pub draw_calls: u32,
    pub triangles: u64,
}

/// What became of the entities of a class.
#[derive(Debug, Clone, Copy, PartialEq, Eq, Structural)]
pub struct ClassStats {
    pub total: u32,
    pub with_model: u32,
    pub drawn: u32,
    pub triangles: u64,
    pub preview: u32,
    pub hidden: u32,
    pub not_found: u32,
    pub no_mesh: u32,
}

/// A class of which nothing is known yet.
pub open spec fn no_stats() -> ClassStats {
    ClassStats {
        total: 0,
        with_model: 0,
        drawn: 0,
        triangles: 0,
        preview: 0,
        hidden: 0,
        not_found: 0,
        no_mesh: 0,
    }
}

/// A material of which nothing was left out yet.
pub open spec fn no_drop() -> ToolsDrop {
    ToolsDrop { draw_calls: 0, triangles: 0 }
}

/// A class of which nothing is known yet.
fn fresh_stats() -> (r: ClassStats)
    ensures
        r == no_stats(),
{
    ClassStats {
        total: 0,
        with_model: 0,
        drawn: 0,
        triangles: 0,
        preview: 0,
        hidden: 0,
        not_found: 0,
        no_mesh: 0,
    }
}

/// What is reported.
#[derive(Debug)]
pub struct Report {
    pub counts: Counts,
    pub per_material: Vec<(String, u64)>,
    pub tools_dropped: Vec<(String, ToolsDrop)>,
    pub missing_resources: Vec<String>,
    pub class_stats: Vec<(String, ClassStats)>,
    pub material_extras: Vec<(u32, Json)>,
    pub hidden_entities: Vec<Json>,
    pub unlit_used: bool,
}

/// A [`Report`] as plain values.
pub struct ReportView {
    pub counts: Counts,
    pub per_material: Seq<(Seq<char>, u64)>,
    pub tools_dropped: Seq<(Seq<char>, ToolsDrop)>,
    pub missing_resources: Seq<Seq<char>>,
    pub class_stats: Seq<(Seq<char>, ClassStats)>,
    pub material_extras: Seq<(u32, crate::json::JsonView)>,
    pub hidden_entities: Seq<crate::json::JsonView>,
    pub unlit_used: bool,
}

/// Documents by number, as plain values.
pub open spec fn numbered_views(v: Seq<(u32, Json)>) -> Seq<(u32, crate::json::JsonView)> {
    Seq::new(v.len(), |i: int| (v[i].0, v[i].1@))
}

impl View for Report {
    type V = ReportView;

    open spec fn view(&self) -> ReportView {
        ReportView {
            counts: self.counts,
            per_material: named_views(self.per_material@),
            tools_dropped: named_views(self.tools_dropped@),
            missing_resources: crate::text::texts(self.missing_resources@),
            class_stats: named_views(self.class_stats@),
            material_extras: numbered_views(self.material_extras@),
            hidden_entities: crate::json::json_views(self.hidden_entities@),
            unlit_used: self.unlit_used,
        }
    }
}

/// A report of nothing.
pub open spec fn empty_report() -> ReportView {
    ReportView {
        counts: no_counts(),
        per_material: Seq::empty(),
        tools_dropped: Seq::empty(),
        missing_resources: Seq::empty(),
        class_stats: Seq::empty(),
        material_extras: Seq::empty(),
        hidden_entities: Seq::empty(),
        unlit_used: false,
    }
}

/// The triangles of all materials.
pub open spec fn sum_of(v: Seq<(Seq<char>, u64)>) -> int
    decreases v.len(),
{
    if v.len() == 0 {
        0
    } else {
        sum_of(v.drop_last()) + v.last().1
    }
}

/// Whether every entity of a class that has a model was either drawn or left out for one reason.
pub open spec fn settled(s: ClassStats) -> bool {
    s.with_model == s.drawn + s.preview + s.hidden + s.not_found + s.no_mesh && s.with_model
        <= s.total
}

/// What holds of every report: each triangle that is drawn is counted once by its light and once by
/// its material, each entity that has a model once by what became of it, no name stands twice, and
/// no material is both drawn and left out.
pub open spec fn sound(r: ReportView) -> bool {
    &&& r.counts.triangles == r.counts.lightmap_triangles + r.counts.unlit_triangles
        + r.counts.probe_triangles
    &&& sum_of(r.per_material) == r.counts.triangles
    &&& forall|i: int| 0 <= i < r.class_stats.len() ==> settled((#[trigger] r.class_stats[i]).1)
    &&& names_differ(r.per_material)
    &&& names_differ(r.tools_dropped)
    &&& names_differ(r.class_stats)
    &&& names_apart(r.per_material, r.tools_dropped)
}

/// A sum is not negative.
proof fn lemma_sum_grows(v: Seq<(Seq<char>, u64)>)
    ensures
        sum_of(v) >= 0,
    decreases v.len(),
{
    if v.len() > 0 {
        lemma_sum_grows(v.drop_last());
    }
}

/// One value of many is no more than their sum.
proof fn lemma_sum(v: Seq<(Seq<char>, u64)>, i: int)
    requires
        0 <= i < v.len(),
    ensures
        v[i].1 <= sum_of(v),
    decreases v.len(),
{
    lemma_sum_grows(v.drop_last());
    if i < v.len() - 1 {
        lemma_sum(v.drop_last(), i);
    }
}

/// What setting one value does to the sum.
proof fn lemma_update_sum(v: Seq<(Seq<char>, u64)>, i: int, x: (Seq<char>, u64))
    requires
        0 <= i < v.len(),
    ensures
        sum_of(v.update(i, x)) == sum_of(v) - v[i].1 + x.1,
    decreases v.len(),
{
    let after = v.update(i, x);
    if i == v.len() - 1 {
        assert(after.drop_last() =~= v.drop_last());
    } else {
        lemma_update_sum(v.drop_last(), i, x);
        assert(after.drop_last() =~= v.drop_last().update(i, x));
    }
}

/// What counting for a name does to the sum.
proof fn lemma_counted(v: Seq<(Seq<char>, u64)>, name: Seq<char>, n: u64)
    requires
        value_or(v, name, 0) + n <= u64::MAX,
    ensures
        sum_of(with_value(v, name, (value_or(v, name, 0) + n) as u64)) == sum_of(v) + n,
{
    lemma_place(v, name, 0);
    match place_of(v, name, 0) {
        Some(i) => {
            lemma_update_sum(v, i, (name, (v[i].1 + n) as u64));
        },
        None => {
            assert(v.push((name, n)).drop_last() =~= v);
        },
    }
}

/// Counters with a draw call more.
pub open spec fn counts_after_draw(c: Counts, triangles: u64, lighting: LightingClass) -> Counts {
    let c = Counts { triangles: (c.triangles + triangles) as u64, ..c };
    match lighting {
        LightingClass::Lightmap => Counts {
            lightmap_draw_calls: (c.lightmap_draw_calls + 1) as u32,
            lightmap_triangles: (c.lightmap_triangles + triangles) as u64,
            ..c
        },
        LightingClass::Unlit => Counts {
            unlit_draw_calls: (c.unlit_draw_calls + 1) as u32,
            unlit_triangles: (c.unlit_triangles + triangles) as u64,
            ..c
        },
        LightingClass::Probe => Counts {
            probe_draw_calls: (c.probe_draw_calls + 1) as u32,
            probe_triangles: (c.probe_triangles + triangles) as u64,
            ..c
        },
    }
}

/// A report with a draw call more.
pub open spec fn after_draw(
    r: ReportView,
    material: Seq<char>,
    triangles: u64,
    lighting: LightingClass,
) -> ReportView {
    ReportView {
        counts: counts_after_draw(r.counts, triangles, lighting),
        per_material: with_value(
            r.per_material,
            material,
            (value_or(r.per_material, material, 0) + triangles) as u64,
        ),
        ..r
    }
}

/// Whether a report can count a draw call more.
pub open spec fn can_draw(c: Counts, triangles: u64) -> bool {
    &&& c.triangles + triangles <= u64::MAX
    &&& c.lightmap_draw_calls < u32::MAX
    &&& c.unlit_draw_calls < u32::MAX
    &&& c.probe_draw_calls < u32::MAX
}

/// A report with a draw call more that is left out because its material is for tools.
pub open spec fn after_tools_drop(r: ReportView, material: Seq<char>, triangles: u64) -> ReportView {
    let d = value_or(r.tools_dropped, material, no_drop());
    ReportView {
        tools_dropped: with_value(
            r.tools_dropped,
            material,
            ToolsDrop {
                draw_calls: (d.draw_calls + 1) as u32,
                triangles: (d.triangles + triangles) as u64,
            },
        ),
        ..r
    }
}

/// What became of an entity.
#[derive(Debug, Clone, Copy, PartialEq, Eq, Structural)]
pub enum Outcome {
    /// It has no model.
    NoModel,
    /// It only shows what a player looks like.
    Preview,
    /// It is hidden.
    Hidden,
    /// Its model is not there, or cannot be read.
    NotFound,
    /// It was placed, with so many triangles.
    Placed(u64),
}

/// The reason for which an entity that only shows what a player looks like is left out.
pub const WHY_PREVIEW: &'static str = "preview model";

/// The reason for which a hidden entity is left out.
pub const WHY_HIDDEN: &'static str = "hidden (startdisabled/enabled/renderamt/rendermode)";

/// The reason for which an entity without its model is left out.
pub const WHY_NOT_FOUND: &'static str = "model not found";

/// The reason for which an entity whose model draws nothing is left out.
pub const WHY_NO_MESH: &'static str = "no render mesh (physics-only model)";

/// A class with one entity more.
pub open spec fn stats_after(s: ClassStats, outcome: Outcome) -> ClassStats {
    let s = ClassStats {
        total: (s.total + 1) as u32,
        with_model: if outcome is NoModel {
            s.with_model
        } else {
            (s.with_model + 1) as u32
        },
        ..s
    };
    match outcome {
        Outcome::NoModel => s,
        Outcome::Preview => ClassStats { preview: (s.preview + 1) as u32, ..s },
        Outcome::Hidden => ClassStats { hidden: (s.hidden + 1) as u32, ..s },
        Outcome::NotFound => ClassStats { not_found: (s.not_found + 1) as u32, ..s },
        Outcome::Placed(n) => if n > 0 {
            ClassStats {
                drawn: (s.drawn + 1) as u32,
                triangles: (s.triangles + n) as u64,
                ..s
            }
        } else {
            ClassStats { no_mesh: (s.no_mesh + 1) as u32, ..s }
        },
    }
}

/// Whether a class can count an entity more.
pub open spec fn can_count(s: ClassStats, outcome: Outcome) -> bool {
    s.total < u32::MAX && match outcome {
        Outcome::Placed(n) => s.triangles + n <= u64::MAX,
        _ => true,
    }
}

/// The reason that is written down of an entity that is left out by a rule.
pub open spec fn rule_of(outcome: Outcome) -> Option<Seq<char>> {
    match outcome {
        Outcome::Preview => Some(WHY_PREVIEW@),
        Outcome::Hidden => Some(WHY_HIDDEN@),
        _ => None,
    }
}

/// An entity that is left out by a rule, as a document.
pub open spec fn hidden_json(
    class: Seq<char>,
    target: Option<Seq<char>>,
    model: Seq<char>,
    reason: Seq<char>,
) -> crate::json::JsonView {
    crate::json::JsonView::Object(
        crate::json::empty().push(("classname"@, crate::json::JsonView::Str(class))).push(
            ("targetname"@, crate::json::opt_str(target)),
        ).push(("model"@, crate::json::JsonView::Str(model))).push(
            ("reason"@, crate::json::JsonView::Str(reason)),
        ),
    )
}

/// Classes that have counted an entity more.
pub open spec fn counted(v: Seq<(Seq<char>, ClassStats)>, class: Seq<char>, outcome: Outcome) -> Seq<
    (Seq<char>, ClassStats),
> {
    with_value(v, class, stats_after(value_or(v, class, no_stats()), outcome))
}

/// Classes that have counted entities, one after the other, each by its class and what became of it.
pub open spec fn counted_all(
    v: Seq<(Seq<char>, ClassStats)>,
    entities: Seq<(Seq<char>, Outcome)>,
) -> Seq<(Seq<char>, ClassStats)>
    decreases entities.len(),
{
    if entities.len() == 0 {
        v
    } else {
        let last = entities.last();
        counted(counted_all(v, entities.drop_last()), last.0, last.1)
    }
}

/// Whether classes have room to count entities, one after the other.
pub open spec fn can_count_all(
    v: Seq<(Seq<char>, ClassStats)>,
    entities: Seq<(Seq<char>, Outcome)>,
) -> bool
    decreases entities.len(),
{
    entities.len() > 0 ==> {
        let last = entities.last();
        &&& can_count_all(v, entities.drop_last())
        &&& can_count(
            value_or(counted_all(v, entities.drop_last()), last.0, no_stats()),
            last.1,
        )
    }
}

/// How many entities are of a class.
pub open spec fn of_class(entities: Seq<(Seq<char>, Outcome)>, class: Seq<char>) -> int
    decreases entities.len(),
{
    if entities.len() == 0 {
        0
    } else if entities.last().0 == class {
        of_class(entities.drop_last(), class) + 1
    } else {
        of_class(entities.drop_last(), class)
    }
}


/// A report with an entity more.
pub open spec fn after_entity(
    r: ReportView,
    class: Seq<char>,
    target: Option<Seq<char>>,
    model: Seq<char>,
    outcome: Outcome,
) -> ReportView {
    ReportView {
        class_stats: counted(r.class_stats, class, outcome),
        hidden_entities: match rule_of(outcome) {
            Some(reason) => r.hidden_entities.push(hidden_json(class, target, model, reason)),
            None => r.hidden_entities,
        },
        ..r
    }
}

/// How many entities all classes have counted.
pub open spec fn entity_total(v: Seq<(Seq<char>, ClassStats)>) -> int
    decreases v.len(),
{
    if v.len() == 0 {
        0
    } else {
        entity_total(v.drop_last()) + v.last().1.total
    }
}

/// What setting a class does to the number of entities.
proof fn lemma_update_total(v: Seq<(Seq<char>, ClassStats)>, i: int, e: (Seq<char>, ClassStats))
    requires
        0 <= i < v.len(),
    ensures
        entity_total(v.update(i, e)) == entity_total(v) - v[i].1.total + e.1.total,
    decreases v.len(),
{
    let after = v.update(i, e);
    if i == v.len() - 1 {
        assert(after.drop_last() =~= v.drop_last());
    } else {
        assert(after.drop_last() =~= v.drop_last().update(i, e));
        lemma_update_total(v.drop_last(), i, e);
    }
}

/// Whatever becomes of an entity, it is counted once: one class has one entity more, and every
/// other class what it had.
pub proof fn every_entity_counts_once(
    r: ReportView,
    class: Seq<char>,
    target: Option<Seq<char>>,
    model: Seq<char>,
    outcome: Outcome,
    other: Seq<char>,
)
    requires
        can_count(value_or(r.class_stats, class, no_stats()), outcome),
    ensures
        ({
            let after = after_entity(r, class, target, model, outcome);
            &&& entity_total(after.class_stats) == entity_total(r.class_stats) + 1
            &&& value_or(after.class_stats, class, no_stats()).total == value_or(
                r.class_stats,
                class,
                no_stats(),
            ).total + 1
            &&& other != class ==> value_or(after.class_stats, other, no_stats()) == value_or(
                r.class_stats,
                other,
                no_stats(),
            )
        }),
{
    let v = r.class_stats;
    let next = stats_after(value_or(v, class, no_stats()), outcome);
    lemma_place(v, class, 0);
    lemma_place(v, other, 0);
    lemma_set(v, class, next, class, 0);
    lemma_set(v, class, next, other, 0);
    match place_of(v, class, 0) {
        Some(i) => {
            lemma_update_total(v, i, (class, next));
        },
        None => {
            assert(v.push((class, next)).drop_last() =~= v);
        },
    }
}

/// However many entities are counted, each class has as many more as there are of it, and of each
/// class every entity that has a model was drawn or left out for one reason.
pub proof fn entities_count_by_class(
    v: Seq<(Seq<char>, ClassStats)>,
    entities: Seq<(Seq<char>, Outcome)>,
    class: Seq<char>,
)
    requires
        can_count_all(v, entities),
        forall|i: int| 0 <= i < v.len() ==> settled((#[trigger] v[i]).1),
    ensures
        ({
            let after = counted_all(v, entities);
            &&& value_or(after, class, no_stats()).total == value_or(v, class, no_stats()).total
                + of_class(entities, class)
            &&& forall|i: int| 0 <= i < after.len() ==> settled((#[trigger] after[i]).1)
        }),
    decreases entities.len(),
{
    if entities.len() > 0 {
        let last = entities.last();
        let before = counted_all(v, entities.drop_last());
        entities_count_by_class(v, entities.drop_last(), class);
        every_entity_counts_once(
            ReportView { class_stats: before, ..empty_report() },
            last.0,
            None,
            Seq::empty(),
            last.1,
            class,
        );
        lemma_settled(before, last.0, last.1);
    }
}

/// Where a name stands after a value was set: where it stood, or behind the others.
proof fn lemma_set<T>(v: Seq<(Seq<char>, T)>, name: Seq<char>, value: T, other: Seq<char>, from: int)
    requires
        0 <= from <= v.len(),
    ensures
        ({
            let after = with_value(v, name, value);
            place_of(after, other, from) == (match place_of(v, other, from) {
                Some(i) => Some(i),
                None => if other == name && place_of(v, name, 0) is None {
                    Some(v.len() as int)
                } else {
                    None
                },
            })
        }),
    decreases v.len() - from,
{
    lemma_place(v, name, 0);
    let after = with_value(v, name, value);
    if from < v.len() {
        assert(after[from].0 == v[from].0);
        if v[from].0 != other {
            lemma_set(v, name, value, other, from + 1);
        }
    } else if after.len() > v.len() {
        assert(after[from].0 == name);
        assert(place_of(after, other, from + 1) is None);
    }
}

/// A class keeps account of its entities.
proof fn lemma_settled(v: Seq<(Seq<char>, ClassStats)>, class: Seq<char>, outcome: Outcome)
    requires
        forall|i: int| 0 <= i < v.len() ==> settled((#[trigger] v[i]).1),
        can_count(value_or(v, class, no_stats()), outcome),
    ensures
        ({
            let after = with_value(
                v,
                class,
                stats_after(value_or(v, class, no_stats()), outcome),
            );
            forall|i: int| 0 <= i < after.len() ==> settled((#[trigger] after[i]).1)
        }),
{
    lemma_place(v, class, 0);
    let s = value_or(v, class, no_stats());
    assert(settled(s)) by {
        match place_of(v, class, 0) {
            Some(i) => {
                assert(settled(v[i].1));
            },
            None => {},
        }
    }
    assert(settled(stats_after(s, outcome)));
    let after = with_value(v, class, stats_after(s, outcome));
    assert forall|i: int| 0 <= i < after.len() implies settled((#[trigger] after[i]).1) by {
        if i < v.len() {
            assert(settled(v[i].1));
        }
    }
}

impl Report {
    /// A report of nothing.
    pub fn new() -> (r: Report)
        ensures
            r@ == empty_report(),
            sound(r@),
    {
        let r: Report = Report {
            counts: Counts {
                triangles: 0,
                scene_objects_total: 0,
                scene_objects_placed: 0,
                aggregates_total: 0,
                aggregates_fallback: 0,
                fragments_total: 0,
                fragments_placed: 0,
                lightmap_draw_calls: 0,
                lightmap_triangles: 0,
                unlit_draw_calls: 0,
                unlit_triangles: 0,
                probe_draw_calls: 0,
                probe_triangles: 0,
                probe_sample_failures: 0,
                probe_volumes_skipped: 0,
            },
            per_material: Vec::new(),
            tools_dropped: Vec::new(),
            missing_resources: Vec::new(),
            class_stats: Vec::new(),
            material_extras: Vec::new(),
            hidden_entities: Vec::new(),
            unlit_used: false,
        };
        proof {
            assert(r@.per_material =~= empty_report().per_material);
            assert(r@.tools_dropped =~= empty_report().tools_dropped);
            assert(r@.missing_resources =~= empty_report().missing_resources);
            assert(r@.class_stats =~= empty_report().class_stats);
            assert(r@.material_extras =~= empty_report().material_extras);
            assert(r@.hidden_entities =~= empty_report().hidden_entities);
        }
        r
    }

    /// Writes down something that is missing.
    pub fn note_missing(&mut self, message: String)
        ensures
            final(self)@ == (ReportView {
                missing_resources: old(self)@.missing_resources.push(message@),
                ..old(self)@
            }),
            sound(old(self)@) ==> sound(final(self)@),
    {
        proof {
            crate::text::lemma_texts_push(self.missing_resources@, message);
        }
        self.missing_resources.push(message);
    }

    /// Counts a draw call.
    pub fn count_draw(&mut self, material: &str, triangles: u64, lighting: LightingClass)
        requires
            sound(old(self)@),
            can_draw(old(self)@.counts, triangles),
            !has_name(old(self)@.tools_dropped, material@),
        ensures
            final(self)@ == after_draw(old(self)@, material@, triangles, lighting),
            sound(final(self)@),
    {
        let ghost before = self@;
        let so_far: u64 = get_value(&self.per_material, material, 0);
        proof {
            lemma_place(before.per_material, material@, 0);
            match place_of(before.per_material, material@, 0) {
                Some(i) => {
                    lemma_sum(before.per_material, i);
                },
                None => {},
            }
            lemma_counted(before.per_material, material@, triangles);
            names_stay_different(
                before.per_material,
                material@,
                (so_far + triangles) as u64,
            );
            let after = with_value(
                before.per_material,
                material@,
                (so_far + triangles) as u64,
            );
            assert forall|i: int, j: int|
                0 <= i < after.len() && 0 <= j < before.tools_dropped.len() implies (
            #[trigger] after[i]).0 != (#[trigger] before.tools_dropped[j]).0 by {
                if i < before.per_material.len() {
                    assert(after[i].0 == before.per_material[i].0);
                }
            }
        }
        set_value(&mut self.per_material, material, so_far + triangles);
        self.counts.triangles = self.counts.triangles + triangles;
        match lighting {
            LightingClass::Lightmap => {
                self.counts.lightmap_draw_calls = self.counts.lightmap_draw_calls + 1;
                self.counts.lightmap_triangles = self.counts.lightmap_triangles + triangles;
            },
            LightingClass::Unlit => {
                self.counts.unlit_draw_calls = self.counts.unlit_draw_calls + 1;
                self.counts.unlit_triangles = self.counts.unlit_triangles + triangles;
            },
            LightingClass::Probe => {
                self.counts.probe_draw_calls = self.counts.probe_draw_calls + 1;
                self.counts.probe_triangles = self.counts.probe_triangles + triangles;
            },
        }
    }

    /// Whether the counts have room for a draw call that is drawn.
    pub fn can_count_draw(&self, triangles: u64) -> (r: bool)
        ensures
            r == can_draw(self@.counts, triangles),
    {
        let c: &Counts = &self.counts;
        c.triangles <= u64::MAX - triangles && c.lightmap_draw_calls < u32::MAX
            && c.unlit_draw_calls < u32::MAX && c.probe_draw_calls < u32::MAX
    }

    /// What was left out of a material that is for tools.
    pub fn tools_drop(&self, material: &str) -> (r: ToolsDrop)
        ensures
            r == value_or(self@.tools_dropped, material@, no_drop()),
    {
        get_value(
            &self.tools_dropped,
            material,
            ToolsDrop { draw_calls: 0, triangles: 0 },
        )
    }

    /// Counts a draw call that is left out because its material is for tools.
    pub fn drop_tools(&mut self, material: &str, triangles: u64)
        requires
            sound(old(self)@),
            value_or(old(self)@.tools_dropped, material@, no_drop()).draw_calls < u32::MAX,
            value_or(old(self)@.tools_dropped, material@, no_drop()).triangles + triangles
                <= u64::MAX,
            !has_name(old(self)@.per_material, material@),
        ensures
            final(self)@ == after_tools_drop(old(self)@, material@, triangles),
            sound(final(self)@),
    {
        let d: ToolsDrop = get_value(
            &self.tools_dropped,
            material,
            ToolsDrop { draw_calls: 0, triangles: 0 },
        );
        let next: ToolsDrop = ToolsDrop {
            draw_calls: d.draw_calls + 1,
            triangles: d.triangles + triangles,
        };
        proof {
            names_stay_different(self@.tools_dropped, material@, next);
            lemma_place(self@.tools_dropped, material@, 0);
            let drawn = self@.per_material;
            let before = self@.tools_dropped;
            let after = with_value(before, material@, next);
            assert forall|i: int, j: int|
                0 <= i < drawn.len() && 0 <= j < after.len() implies (#[trigger] drawn[i]).0 != (
            #[trigger] after[j]).0 by {
                if j < before.len() {
                    assert(after[j].0 == before[j].0);
                }
            }
        }
        set_value(&mut self.tools_dropped, material, next);
    }

    /// What is known of a class.
    pub fn class(&self, class: &str) -> (r: ClassStats)
        ensures
            r == value_or(self@.class_stats, class@, no_stats()),
    {
        get_value(&self.class_stats, class, fresh_stats())
    }

    /// Counts an entity, and writes it down where it is left out by a rule.
    pub fn count_entity(
        &mut self,
        class: &str,
        target: &Option<String>,
        model: &str,
        outcome: Outcome,
    )
        requires
            sound(old(self)@),
            can_count(value_or(old(self)@.class_stats, class@, no_stats()), outcome),
        ensures
            final(self)@ == after_entity(
                old(self)@,
                class@,
                crate::text::opt_text(*target),
                model@,
                outcome,
            ),
            sound(final(self)@),
    {
        let ghost before = self@;
        let mut s: ClassStats = get_value(&self.class_stats, class, fresh_stats());
        proof {
            lemma_settled(before.class_stats, class@, outcome);
            names_stay_different(before.class_stats, class@, stats_after(s, outcome));
            lemma_place(before.class_stats, class@, 0);
            assert(settled(s)) by {
                match place_of(before.class_stats, class@, 0) {
                    Some(i) => {
                        assert(settled(before.class_stats[i].1));
                    },
                    None => {},
                }
            }
        }
        s.total = s.total + 1;
        match outcome {
            Outcome::NoModel => {},
            Outcome::Preview => {
                s.with_model = s.with_model + 1;
                s.preview = s.preview + 1;
            },
            Outcome::Hidden => {
                s.with_model = s.with_model + 1;
                s.hidden = s.hidden + 1;
            },
            Outcome::NotFound => {
                s.with_model = s.with_model + 1;
                s.not_found = s.not_found + 1;
            },
            Outcome::Placed(n) => {
                s.with_model = s.with_model + 1;
                if n > 0 {
                    s.drawn = s.drawn + 1;
                    s.triangles = s.triangles + n;
                } else {
                    s.no_mesh = s.no_mesh + 1;
                }
            },
        }
        set_value(&mut self.class_stats, class, s);
        let reason: Option<&'static str> = match outcome {
            Outcome::Preview => Some(WHY_PREVIEW),
            Outcome::Hidden => Some(WHY_HIDDEN),
            _ => None,
        };
        match reason {
            Some(why) => {
                let mut m: Members = Members::new();
                m.put_text("classname", class);
                m.put_opt_text("targetname", target);
                m.put_text("model", model);
                m.put_text("reason", why);
                add_item(&mut self.hidden_entities, m.object());
            },
            None => {},
        }
    }
}

/// Materials to be put in order.
pub open spec fn ranks_by_count(v: Seq<(Seq<char>, u64)>) -> Seq<crate::order::RankView> {
    Seq::new(
        v.len(),
        |i: int| crate::order::RankView { count: v[i].1, name: v[i].0, index: i as usize },
    )
}

/// Named values to be put in order.
pub open spec fn ranks_by_name<T>(v: Seq<(Seq<char>, T)>) -> Seq<crate::order::RankView> {
    Seq::new(
        v.len(),
        |i: int| crate::order::RankView { count: 0, name: v[i].0, index: i as usize },
    )
}

/// The triangles of a material, as a document.
pub open spec fn material_json(name: Seq<char>, triangles: u64) -> crate::json::JsonView {
    crate::json::JsonView::Object(
        crate::json::empty().push(("material"@, crate::json::JsonView::Str(name))).push(
            ("triangles"@, crate::json::JsonView::UInt(triangles)),
        ),
    )
}

/// The triangles of each material: those with most first, and of those with as many the one whose
/// name goes before.
pub open spec fn materials_json(v: Seq<(Seq<char>, u64)>) -> Seq<crate::json::JsonView> {
    let o = crate::order::in_order(ranks_by_count(v));
    Seq::new(o.len(), |i: int| material_json(o[i].name, o[i].count))
}

/// What was left out of a material, as a document.
pub open spec fn drop_json(name: Seq<char>, d: ToolsDrop) -> crate::json::JsonView {
    crate::json::JsonView::Object(
        crate::json::empty().push(("material"@, crate::json::JsonView::Str(name))).push(
            ("drawCalls"@, crate::json::JsonView::UInt(d.draw_calls as u64)),
        ).push(("triangles"@, crate::json::JsonView::UInt(d.triangles))),
    )
}

/// What was left out, by the name of the material.
pub open spec fn drops_json(v: Seq<(Seq<char>, ToolsDrop)>) -> Seq<crate::json::JsonView> {
    let o = crate::order::in_order(ranks_by_name(v));
    Seq::new(o.len(), |i: int| drop_json(o[i].name, v[o[i].index as int].1))
}

/// The material that an entry of one of these lists is of.
pub open spec fn entry_material(entry: crate::json::JsonView) -> Option<Seq<char>> {
    match entry {
        crate::json::JsonView::Object(m) => match m[0].1 {
            crate::json::JsonView::Str(name) => Some(name),
            _ => None,
        },
        _ => None,
    }
}

/// What stands in a list that was put in order stood in the list.
proof fn lemma_in_order(v: Seq<crate::order::RankView>, i: int)
    requires
        0 <= i < crate::order::in_order(v).len(),
    ensures
        v.contains(crate::order::in_order(v)[i]),
{
    let o = crate::order::in_order(v);
    crate::order::order_is_kept(v);
    o.to_multiset_ensures();
    v.to_multiset_ensures();
    assert(o.contains(o[i]));
    assert(o.to_multiset().count(o[i]) > 0);
    assert(v.to_multiset().count(o[i]) > 0);
}

/// No material whose triangles a report lists is among the materials that it lists as left out.
pub proof fn no_material_is_drawn_and_left_out(r: ReportView, i: int, j: int)
    requires
        sound(r),
        0 <= i < materials_json(r.per_material).len(),
        0 <= j < drops_json(r.tools_dropped).len(),
    ensures
        entry_material(materials_json(r.per_material)[i]) is Some,
        entry_material(drops_json(r.tools_dropped)[j]) is Some,
        entry_material(materials_json(r.per_material)[i]) != entry_material(
            drops_json(r.tools_dropped)[j],
        ),
{
    let drawn = ranks_by_count(r.per_material);
    let dropped = ranks_by_name(r.tools_dropped);
    lemma_in_order(drawn, i);
    lemma_in_order(dropped, j);
    let x = crate::order::in_order(drawn)[i];
    let y = crate::order::in_order(dropped)[j];
    let k = choose|k: int| 0 <= k < drawn.len() && drawn[k] == x;
    let l = choose|l: int| 0 <= l < dropped.len() && dropped[l] == y;
    assert(r.per_material[k].0 == x.name);
    assert(r.tools_dropped[l].0 == y.name);
}

/// Members with a count more, where it is not nought.
pub open spec fn also_count(
    m: Seq<(Seq<char>, crate::json::JsonView)>,
    name: Seq<char>,
    n: u32,
) -> Seq<(Seq<char>, crate::json::JsonView)> {
    if n > 0 {
        m.push((name, crate::json::JsonView::UInt(n as u64)))
    } else {
        m
    }
}

/// The reasons for which entities of a class were left out.
pub open spec fn reasons_json(s: ClassStats) -> crate::json::JsonView {
    let m = also_count(crate::json::empty(), WHY_PREVIEW@, s.preview);
    let m = also_count(m, WHY_HIDDEN@, s.hidden);
    let m = also_count(m, WHY_NOT_FOUND@, s.not_found);
    crate::json::JsonView::Object(also_count(m, WHY_NO_MESH@, s.no_mesh))
}

/// A class, as a document.
pub open spec fn class_json(name: Seq<char>, s: ClassStats) -> crate::json::JsonView {
    crate::json::JsonView::Object(
        crate::json::empty().push(("classname"@, crate::json::JsonView::Str(name))).push(
            ("total"@, crate::json::JsonView::UInt(s.total as u64)),
        ).push(("withModel"@, crate::json::JsonView::UInt(s.with_model as u64))).push(
            ("drawn"@, crate::json::JsonView::UInt(s.drawn as u64)),
        ).push(("triangles"@, crate::json::JsonView::UInt(s.triangles))).push(
            ("reasons"@, reasons_json(s)),
        ),
    )
}

/// The classes, by name.
pub open spec fn classes_json(v: Seq<(Seq<char>, ClassStats)>) -> Seq<crate::json::JsonView> {
    let o = crate::order::in_order(ranks_by_name(v));
    Seq::new(o.len(), |i: int| class_json(o[i].name, v[o[i].index as int].1))
}

/// The triangles of each material.
fn write_materials(v: &Vec<(String, u64)>) -> (r: Vec<Json>)
    ensures
        crate::json::json_views(r@) == materials_json(named_views(v@)),
{
    let ghost all = named_views(v@);
    let mut ranks: Vec<Ranked> = Vec::new();
    let mut i: usize = 0;
    while i < v.len()
        invariant
            i <= v@.len(),
            all == named_views(v@),
            crate::order::rank_views(ranks@) =~= ranks_by_count(all).take(i as int),
        decreases v@.len() - i,
    {
        let x: Ranked = Ranked { count: v[i].1, name: v[i].0.clone(), index: i };
        assert(crate::order::rank_views(ranks@.push(x)) =~= crate::order::rank_views(ranks@).push(
            x@,
        ));
        assert(ranks_by_count(all)[i as int] == x@);
        ranks.push(x);
        i += 1;
    }
    assert(ranks_by_count(all).take(i as int) =~= ranks_by_count(all));
    let sorted: Vec<Ranked> = put_in_order(ranks);
    let ghost o = crate::order::in_order(ranks_by_count(all));
    let mut out: Vec<Json> = Vec::new();
    let mut k: usize = 0;
    while k < sorted.len()
        invariant
            k <= sorted@.len(),
            o == crate::order::in_order(ranks_by_count(all)),
            crate::order::rank_views(sorted@) == o,
            crate::json::json_views(out@) =~= materials_json(all).take(k as int),
        decreases sorted@.len() - k,
    {
        assert(o[k as int] == sorted@[k as int]@);
        let mut m: Members = Members::new();
        m.put_text("material", sorted[k].name.as_str());
        m.put_uint("triangles", sorted[k].count);
        add_item(&mut out, m.object());
        assert(materials_json(all).take(k + 1) =~= materials_json(all).take(k as int).push(
            materials_json(all)[k as int],
        ));
        k += 1;
    }
    assert(materials_json(all).take(k as int) =~= materials_json(all));
    out
}

/// Named values, put in order.
fn order_names<T>(v: &Vec<(String, T)>) -> (r: Vec<Ranked>)
    ensures
        crate::order::rank_views(r@) == crate::order::in_order(ranks_by_name(named_views(v@))),
        forall|i: int| 0 <= i < r@.len() ==> (#[trigger] r@[i]).index < v@.len(),
        r@.len() == v@.len(),
{
    let ghost all = named_views(v@);
    let mut ranks: Vec<Ranked> = Vec::new();
    let mut i: usize = 0;
    while i < v.len()
        invariant
            i <= v@.len(),
            all == named_views(v@),
            crate::order::rank_views(ranks@) =~= ranks_by_name(all).take(i as int),
        decreases v@.len() - i,
    {
        let x: Ranked = Ranked { count: 0, name: v[i].0.clone(), index: i };
        assert(crate::order::rank_views(ranks@.push(x)) =~= crate::order::rank_views(ranks@).push(
            x@,
        ));
        assert(ranks_by_name(all)[i as int] == x@);
        ranks.push(x);
        i += 1;
    }
    assert(ranks_by_name(all).take(i as int) =~= ranks_by_name(all));
    let sorted: Vec<Ranked> = put_in_order(ranks);
    proof {
        crate::order::order_keeps_places(ranks_by_name(all), v@.len() as int);
        assert forall|i: int| 0 <= i < sorted@.len() implies (#[trigger] sorted@[i]).index
            < v@.len() by {
            assert(crate::order::rank_views(sorted@)[i] == sorted@[i]@);
        }
    }
    sorted
}

/// What was left out, by the name of the material.
fn write_drops(v: &Vec<(String, ToolsDrop)>) -> (r: Vec<Json>)
    ensures
        crate::json::json_views(r@) == drops_json(named_views(v@)),
{
    let ghost all = named_views(v@);
    let ghost o = crate::order::in_order(ranks_by_name(all));
    let sorted: Vec<Ranked> = order_names(v);
    let mut out: Vec<Json> = Vec::new();
    let mut k: usize = 0;
    while k < sorted.len()
        invariant
            k <= sorted@.len(),
            all == named_views(v@),
            o == crate::order::in_order(ranks_by_name(all)),
            crate::order::rank_views(sorted@) == o,
            forall|i: int| 0 <= i < sorted@.len() ==> (#[trigger] sorted@[i]).index < v@.len(),
            crate::json::json_views(out@) =~= drops_json(all).take(k as int),
        decreases sorted@.len() - k,
    {
        assert(o[k as int] == sorted@[k as int]@);
        let d: ToolsDrop = v[sorted[k].index].1;
        assert(all[sorted@[k as int].index as int].1 == d);
        let mut m: Members = Members::new();
        m.put_text("material", sorted[k].name.as_str());
        m.put_uint("drawCalls", d.draw_calls as u64);
        m.put_uint("triangles", d.triangles);
        add_item(&mut out, m.object());
        assert(drops_json(all).take(k + 1) =~= drops_json(all).take(k as int).push(
            drops_json(all)[k as int],
        ));
        k += 1;
    }
    assert(drops_json(all).take(k as int) =~= drops_json(all));
    out
}

/// Puts a count, where it is not nought.
fn put_count(m: &mut Members, name: &str, n: u32)
    ensures
        final(m)@ == also_count(old(m)@, name@, n),
{
    if n > 0 {
        m.put_uint(name, n as u64);
    }
}

/// The classes, by name.
fn write_classes(v: &Vec<(String, ClassStats)>) -> (r: Vec<Json>)
    ensures
        crate::json::json_views(r@) == classes_json(named_views(v@)),
{
    let ghost all = named_views(v@);
    let ghost o = crate::order::in_order(ranks_by_name(all));
    let sorted: Vec<Ranked> = order_names(v);
    let mut out: Vec<Json> = Vec::new();
    let mut k: usize = 0;
    while k < sorted.len()
        invariant
            k <= sorted@.len(),
            all == named_views(v@),
            o == crate::order::in_order(ranks_by_name(all)),
            crate::order::rank_views(sorted@) == o,
            forall|i: int| 0 <= i < sorted@.len() ==> (#[trigger] sorted@[i]).index < v@.len(),
            crate::json::json_views(out@) =~= classes_json(all).take(k as int),
        decreases sorted@.len() - k,
    {
        assert(o[k as int] == sorted@[k as int]@);
        let s: ClassStats = v[sorted[k].index].1;
        assert(all[sorted@[k as int].index as int].1 == s);
        let mut reasons: Members = Members::new();
        put_count(&mut reasons, WHY_PREVIEW, s.preview);
        put_count(&mut reasons, WHY_HIDDEN, s.hidden);
        put_count(&mut reasons, WHY_NOT_FOUND, s.not_found);
        put_count(&mut reasons, WHY_NO_MESH, s.no_mesh);
        let mut m: Members = Members::new();
        m.put_text("classname", sorted[k].name.as_str());
        m.put_uint("total", s.total as u64);
        m.put_uint("withModel", s.with_model as u64);
        m.put_uint("drawn", s.drawn as u64);
        m.put_uint("triangles", s.triangles);
        m.put_object("reasons", reasons);
        add_item(&mut out, m.object());
        assert(classes_json(all).take(k + 1) =~= classes_json(all).take(k as int).push(
            classes_json(all)[k as int],
        ));
        k += 1;
    }
    assert(classes_json(all).take(k as int) =~= classes_json(all));
    out
}

impl Report {
    /// The triangles of each material, those with most first.
    pub fn per_material_json(&self) -> (r: Vec<Json>)
        ensures
            crate::json::json_views(r@) == materials_json(self@.per_material),
    {
        write_materials(&self.per_material)
    }

    /// What was left out because its material is for tools, by name.
    pub fn tools_json(&self) -> (r: Vec<Json>)
        ensures
            crate::json::json_views(r@) == drops_json(self@.tools_dropped),
    {
        write_drops(&self.tools_dropped)
    }

    /// The classes of entities, by name.
    pub fn entities_json(&self) -> (r: Vec<Json>)
        ensures
            crate::json::json_views(r@) == classes_json(self@.class_stats),
    {
        write_classes(&self.class_stats)
    }
}

impl Report {
    /// Counts a scene object that is about to be placed, and returns how many triangles there are
    /// so far.
    pub fn begin_scene_object(&mut self) -> (r: u64)
        requires
            sound(old(self)@),
            old(self)@.counts.scene_objects_total < u32::MAX,
        ensures
            final(self)@ == (ReportView {
                counts: Counts {
                    scene_objects_total: (old(self)@.counts.scene_objects_total + 1) as u32,
                    ..old(self)@.counts
                },
                ..old(self)@
            }),
            r == old(self)@.counts.triangles,
            sound(final(self)@),
    {
        self.counts.scene_objects_total = self.counts.scene_objects_total + 1;
        self.counts.triangles
    }

    /// Counts a scene object as placed where it added triangles to the `before` that there were.
    pub fn end_scene_object(&mut self, before: u64)
        requires
            sound(old(self)@),
            old(self)@.counts.scene_objects_placed < u32::MAX,
        ensures
            final(self)@ == (ReportView {
                counts: Counts {
                    scene_objects_placed: if old(self)@.counts.triangles > before {
                        (old(self)@.counts.scene_objects_placed + 1) as u32
                    } else {
                        old(self)@.counts.scene_objects_placed
                    },
                    ..old(self)@.counts
                },
                ..old(self)@
            }),
            sound(final(self)@),
    {
        if self.counts.triangles > before {
            self.counts.scene_objects_placed = self.counts.scene_objects_placed + 1;
        }
    }

    /// Counts an aggregate and its fragments.
    pub fn count_aggregate(&mut self, fragments: u32)
        requires
            sound(old(self)@),
            old(self)@.counts.aggregates_total < u32::MAX,
            old(self)@.counts.fragments_total + fragments <= u32::MAX,
        ensures
            final(self)@ == (ReportView {
                counts: Counts {
                    aggregates_total: (old(self)@.counts.aggregates_total + 1) as u32,
                    fragments_total: (old(self)@.counts.fragments_total + fragments) as u32,
                    ..old(self)@.counts
                },
                ..old(self)@
            }),
            sound(final(self)@),
    {
        self.counts.aggregates_total = self.counts.aggregates_total + 1;
        self.counts.fragments_total = self.counts.fragments_total + fragments;
    }

    /// Counts an aggregate that is placed as a whole.
    pub fn count_fallback(&mut self)
        requires
            sound(old(self)@),
            old(self)@.counts.aggregates_fallback < u32::MAX,
        ensures
            final(self)@ == (ReportView {
                counts: Counts {
                    aggregates_fallback: (old(self)@.counts.aggregates_fallback + 1) as u32,
                    ..old(self)@.counts
                },
                ..old(self)@
            }),
            sound(final(self)@),
    {
        self.counts.aggregates_fallback = self.counts.aggregates_fallback + 1;
    }

    /// Counts a fragment that is placed.
    pub fn count_fragment(&mut self)
        requires
            sound(old(self)@),
            old(self)@.counts.fragments_placed < u32::MAX,
        ensures
            final(self)@ == (ReportView {
                counts: Counts {
                    fragments_placed: (old(self)@.counts.fragments_placed + 1) as u32,
                    ..old(self)@.counts
                },
                ..old(self)@
            }),
            sound(final(self)@),
    {
        self.counts.fragments_placed = self.counts.fragments_placed + 1;
    }
}

impl Default for Report {
    fn default() -> (r: Report)
        ensures
            r@ == empty_report(),
            sound(r@),
    {
        Report::new()
    }
}

} // verus!
