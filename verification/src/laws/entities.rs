//! What entities say, in terms of their properties: how they are found and drawn, what their lumps
//! lead to, which light reaches them and what their cables are made of.

use crate::cables::PathNode;
use crate::entity::{Entity, EntityLump, Property, ValueKind};
use crate::lumps::{EntityStepView, Phase, WalkView};
use crate::probes::ProbeVolume;
use crate::report::Outcome;
use vstd::prelude::*;

verus! {

/// Whether a property is the first of an entity with its key.
pub open spec fn is_first(e: Entity, key: Seq<char>, i: int) -> bool {
    &&& 0 <= i < e.properties@.len()
    &&& e.properties@[i].key@ == key
    &&& forall|j: int| 0 <= j < i ==> (#[trigger] e.properties@[j]).key@ != key
}

/// Whether an entity has no property with a key.
pub open spec fn lacks(e: Entity, key: Seq<char>) -> bool {
    forall|j: int| 0 <= j < e.properties@.len() ==> (#[trigger] e.properties@[j]).key@ != key
}

/// Where the search for a property ends.
proof fn lemma_property(v: Seq<Property>, key: Seq<char>, from: int)
    requires
        0 <= from <= v.len(),
        forall|j: int| 0 <= j < from ==> (#[trigger] v[j]).key@ != key,
    ensures
        match crate::entity::property_from(v, key, from) {
            Some(p) => exists|i: int|
                0 <= i < v.len() && #[trigger] v[i] == p && p.key@ == key && forall|j: int|
                    0 <= j < i ==> (#[trigger] v[j]).key@ != key,
            None => forall|j: int| 0 <= j < v.len() ==> (#[trigger] v[j]).key@ != key,
        },
    decreases v.len() - from,
{
    if from < v.len() && v[from].key@ != key {
        lemma_property(v, key, from + 1);
    } else if from < v.len() {
        assert(v[from] == v[from]);
    }
}

/// Whether a value is one that a number can be read of.
pub open spec fn has_number(p: Property) -> bool {
    p.kind != ValueKind::Truth && p.kind != ValueKind::Vector
}

/// An entity gives under a key what the first property with that key holds, read as it is asked for.
pub proof fn an_entity_gives_its_first_property(e: Entity, key: Seq<char>, i: int)
    ensures
        is_first(e, key, i) ==> ({
            let p = e.properties@[i];
            &&& crate::entity::property_of(e, key) == Some(p)
            &&& crate::entity::text_of(e, key) == match p.text {
                Some(s) => Some(s@),
                None => None,
            }
            &&& crate::entity::flag_of(e, key) == p.flag
            &&& crate::entity::vector_of(e, key) == p.vector
            &&& has_number(p) ==> crate::entity::number_of(e, key) == p.number
                && crate::entity::single_of(e, key) == p.single
            &&& !has_number(p) ==> crate::entity::number_of(e, key) is None
                && crate::entity::single_of(e, key) is None
            &&& crate::entity::float_of(e, key) == if p.kind == ValueKind::Float {
                p.single
            } else {
                None
            }
            &&& crate::entity::plain_number_of(e, key) == if p.kind == ValueKind::Float || p.kind
                == ValueKind::Integer {
                p.single
            } else {
                None
            }
        }),
        lacks(e, key) ==> {
            &&& crate::entity::property_of(e, key) is None
            &&& crate::entity::text_of(e, key) is None
            &&& crate::entity::flag_of(e, key) is None
            &&& crate::entity::vector_of(e, key) is None
            &&& crate::entity::number_of(e, key) is None
            &&& crate::entity::single_of(e, key) is None
            &&& crate::entity::float_of(e, key) is None
            &&& crate::entity::plain_number_of(e, key) is None
        },
{
    let v = e.properties@;
    lemma_property(v, key, 0);
    if is_first(e, key, i) {
        let p = crate::entity::property_from(v, key, 0)->Some_0;
        assert(v[i].key@ == key);
        let k = choose|k: int|
            0 <= k < v.len() && #[trigger] v[k] == p && p.key@ == key && forall|j: int|
                0 <= j < k ==> (#[trigger] v[j]).key@ != key;
        if k < i {
            assert(e.properties@[k].key@ != key);
        } else if i < k {
            assert(v[i].key@ != key);
        }
    }
}

/// An entity is drawn unless it says that it starts disabled, is not enabled, has no opacity, or is
/// rendered in the mode that draws nothing.
pub proof fn an_entity_is_drawn_unless_it_says_otherwise(e: Entity)
    ensures
        crate::entity::flag_of(e, "startdisabled"@) == Some(true) ==> !crate::entity::is_drawn(e),
        crate::entity::flag_of(e, "enabled"@) == Some(false) ==> !crate::entity::is_drawn(e),
        crate::entity::number_of(e, "renderamt"@) matches Some(n) ==> (n == 0 || n
            == 0x8000_0000_0000_0000 ==> !crate::entity::is_drawn(e)),
        crate::entity::text_of(e, "rendermode"@) matches Some(s) ==> (
        crate::text::same_ignoring_case(s, "kRenderNone"@) ==> !crate::entity::is_drawn(e)),
        crate::entity::number_of(e, "rendermode"@) == Some(0x4024_0000_0000_0000u64)
            ==> !crate::entity::is_drawn(e),
        crate::entity::is_drawn(e) || {
            ||| crate::entity::flag_of(e, "startdisabled"@) == Some(true)
            ||| crate::entity::flag_of(e, "enabled"@) == Some(false)
            ||| crate::entity::number_of(e, "renderamt"@) == Some(0u64)
            ||| crate::entity::number_of(e, "renderamt"@) == Some(0x8000_0000_0000_0000u64)
            ||| crate::entity::text_of(e, "rendermode"@) matches Some(s)
                && crate::text::same_ignoring_case(s, "kRenderNone"@)
            ||| crate::entity::number_of(e, "rendermode"@) == Some(0x4024_0000_0000_0000u64)
        },
{
}

/// The colour and the opacity of an entity are those that it says, else 1; a number above one and a
/// half is taken as a byte.
pub proof fn an_entity_has_the_tint_it_says(e: Entity, bits: u32)
    ensures
        match crate::entity::vector_of(e, "rendercolor"@) {
            Some(v) => crate::entity::color_of(e) == v@,
            None => crate::entity::color_of(e) == seq![0x3F80_0000u32, 0x3F80_0000u32, 0x3F80_0000u32],
        },
        match crate::entity::single_of(e, "renderamt"@) {
            Some(f) => crate::entity::amount_of(e) == f,
            None => crate::entity::amount_of(e) == 0x3F80_0000,
        },
        crate::entity::is_byte(bits) == (0x3FC0_0000 < bits <= 0x7F80_0000),
{
}

/// An entity has the skin it names, unless that is the default one.
pub proof fn an_entity_has_the_skin_it_names(e: Entity)
    ensures
        match crate::entity::text_of(e, "skin"@) {
            Some(s) => crate::entity::skin_of(e) == if s == "0"@ || crate::text::same_ignoring_case(
                s,
                "default"@,
            ) {
                None
            } else {
                Some(s)
            },
            None => crate::entity::skin_of(e) is None,
        },
{
}

/// A material that the default group names gets the material of the skin at the last place where the
/// default group names it and the skin has one; another keeps its own.
pub proof fn a_skin_gives_what_stands_at_the_same_place(
    from: Seq<String>,
    to: Seq<String>,
    n: int,
    name: Seq<char>,
    i: int,
)
    requires
        0 <= n <= from.len(),
    ensures
        0 <= i < n && i < to.len() && from[i]@ == name && (forall|j: int|
            i < j < n && j < to.len() ==> (#[trigger] from[j])@ != name) ==> crate::table::named(
            crate::entity::matched(from, to, n),
            name,
        ) == Some(to[i]),
        (forall|j: int| 0 <= j < n && j < to.len() ==> (#[trigger] from[j])@ != name)
            ==> crate::table::named(crate::entity::matched(from, to, n), name) is None,
    decreases n,
{
    if n > 0 {
        a_skin_gives_what_stands_at_the_same_place(from, to, n - 1, name, i);
        if i < n - 1 && n - 1 < to.len() && (forall|j: int|
            i < j < n && j < to.len() ==> (#[trigger] from[j])@ != name) {
            assert(from[n - 1]@ != name);
        }
        if n - 1 < to.len() && (forall|j: int|
            0 <= j < n && j < to.len() ==> (#[trigger] from[j])@ != name) {
            assert(from[n - 1]@ != name);
        }
    }
}

/// The entities of lumps come lump by lump.
pub proof fn entities_come_lump_by_lump(a: Seq<EntityLump>, b: Seq<EntityLump>)
    ensures
        crate::entity::all_entities(a + b) == crate::entity::all_entities(a)
            + crate::entity::all_entities(b),
        a.len() == 1 ==> crate::entity::all_entities(a) == a[0].entities@,
        crate::lumps::children_of(a + b) == crate::lumps::children_of(a)
            + crate::lumps::children_of(b),
        a.len() == 1 ==> crate::lumps::children_of(a) == crate::lumps::lump_paths(
            a[0].child_lumps@,
        ),
    decreases b.len(),
{
    if b.len() == 0 {
        assert(a + b =~= a);
        assert(crate::entity::all_entities(a) =~= crate::entity::all_entities(a)
            + crate::entity::all_entities(b));
        assert(crate::lumps::children_of(a) =~= crate::lumps::children_of(a)
            + crate::lumps::children_of(b));
    } else {
        entities_come_lump_by_lump(a, b.drop_last());
        assert((a + b).drop_last() =~= a + b.drop_last());
        assert(crate::entity::all_entities(a + b) =~= crate::entity::all_entities(a)
            + crate::entity::all_entities(b));
        assert(crate::lumps::children_of(a + b) =~= crate::lumps::children_of(a)
            + crate::lumps::children_of(b));
    }
    if a.len() == 1 {
        assert(crate::entity::all_entities(a.drop_last()) =~= Seq::<Entity>::empty());
        assert(crate::entity::all_entities(a) =~= a[0].entities@);
        assert(crate::lumps::children_of(a.drop_last()) =~= Seq::<Seq<char>>::empty());
        assert(crate::lumps::children_of(a) =~= crate::lumps::lump_paths(a[0].child_lumps@));
    }
}

/// The first entity that something holds of is found; none where it holds of none.
pub proof fn the_first_entity_is_found(v: Seq<Entity>, holds: spec_fn(Entity) -> bool, from: int)
    requires
        0 <= from <= v.len(),
    ensures
        match crate::entity::first_where(v, holds, from) {
            Some(e) => exists|i: int|
                from <= i < v.len() && #[trigger] v[i] == e && holds(e) && forall|j: int|
                    from <= j < i ==> !holds(#[trigger] v[j]),
            None => forall|j: int| from <= j < v.len() ==> !holds(#[trigger] v[j]),
        },
    decreases v.len() - from,
{
    if from < v.len() && !holds(v[from]) {
        the_first_entity_is_found(v, holds, from + 1);
    } else if from < v.len() {
        assert(v[from] == v[from]);
    }
}

/// A class is asked for whatever its case, and an entity without one has the empty one.
pub proof fn a_class_is_what_an_entity_says(e: Entity, class: Seq<char>)
    ensures
        match crate::entity::text_of(e, "classname"@) {
            Some(s) => crate::entity::class_of(e) == s,
            None => crate::entity::class_of(e).len() == 0,
        },
        crate::entity::has_class(e, class) == crate::text::same_ignoring_case(
            crate::entity::class_of(e),
            class,
        ),
        crate::entity::target_of(e) == crate::entity::text_of(e, "targetname"@),
{
}

/// A lump is read from the file of its name: in small letters, with forward slashes, and with the
/// ending of a compiled file.
pub proof fn a_lump_is_read_from_its_file(name: Seq<char>, i: int)
    requires
        0 <= i < name.len(),
    ensures
        ({
            let p = crate::lumps::lump_path(name);
            &&& p == crate::text::ascii_lowered(crate::text::forward_slashed(name)) + "_c"@
            &&& p.len() == name.len() + 2
            &&& name[i] == '\\' ==> p[i] == '/'
            &&& name[i] != '\\' ==> p[i] == crate::text::ascii_lower(name[i])
        }),
{
    reveal_strlit("_c");
    assert(crate::lumps::lump_path(name)[i] == crate::text::ascii_lower(
        crate::text::forward_slashed(name)[i],
    ));
}

/// Lumps that were read are skipped; the first that was not is next.
pub proof fn lumps_that_were_read_are_skipped(
    skipped: Seq<Seq<char>>,
    rest: Seq<Seq<char>>,
    visited: Seq<Seq<char>>,
)
    requires
        forall|i: int| 0 <= i < skipped.len() ==> visited.contains(#[trigger] skipped[i]),
        rest.len() > 0 ==> !visited.contains(rest[0]),
    ensures
        crate::lumps::unvisited(skipped + rest, visited) == rest,
    decreases skipped.len(),
{
    if skipped.len() == 0 {
        assert(skipped + rest =~= rest);
    } else {
        assert((skipped + rest)[0] == skipped[0]);
        assert((skipped + rest).skip(1) =~= skipped.skip(1) + rest);
        assert forall|i: int| 0 <= i < skipped.skip(1).len() implies visited.contains(
            #[trigger] skipped.skip(1)[i],
        ) by {
            assert(skipped.skip(1)[i] == skipped[i + 1]);
        }
        lumps_that_were_read_are_skipped(skipped.skip(1), rest, visited);
    }
}

/// The lumps that the world lists are read first, all of them, and then their children; where it lists
/// none, all that the archive has.
pub proof fn listed_lumps_are_read_first(listed: Seq<String>, scan: Seq<Seq<char>>)
    ensures
        ({
            let w = crate::lumps::walk_start(listed, scan);
            &&& listed.len() > 0 ==> w.phase == Phase::Listed && w.queue.len() == listed.len()
                && forall|i: int|
                0 <= i < listed.len() ==> #[trigger] w.queue[i] == crate::lumps::lump_path(
                    listed[i]@,
                )
            &&& listed.len() == 0 ==> w.phase == Phase::Scan && w.queue == scan
            &&& w.scan == scan
            &&& w.visited.len() == 0 && w.lumps.len() == 0 && w.failures.len() == 0
        }),
{
}

/// A lump that was read is kept, behind those that were, and is not read again. One that could not be
/// read is told of; while the listed ones are read, it makes all be read instead, and what was kept is
/// given up.
pub proof fn a_walk_keeps_what_it_reads(w: WalkView, lump: EntityLump, why: Seq<char>)
    requires
        w.queue.len() > 0,
    ensures
        ({
            let a = crate::lumps::after_lump(w, lump);
            &&& a.lumps == w.lumps.push(lump)
            &&& a.visited == w.visited.push(w.queue[0])
            &&& a.failures == w.failures
            &&& a.scan == w.scan
            &&& w.phase == Phase::Scan ==> a.phase == Phase::Scan && a.queue == w.queue.skip(1)
            &&& w.phase == Phase::Listed && w.queue.len() > 1 ==> a.phase == Phase::Listed
                && a.queue == w.queue.skip(1)
            &&& w.phase == Phase::Listed && w.queue.len() == 1 ==> a.phase == Phase::Children
                && a.queue == crate::lumps::unvisited(
                crate::lumps::children_of(w.lumps.push(lump)),
                a.visited,
            )
            &&& w.phase == Phase::Children ==> a.phase == Phase::Children && a.queue
                == crate::lumps::unvisited(
                w.queue.skip(1) + crate::lumps::lump_paths(lump.child_lumps@),
                a.visited,
            )
        }),
        ({
            let f = crate::lumps::after_failure(w, why);
            &&& f.failures == w.failures.push(why)
            &&& f.visited == w.visited.push(w.queue[0])
            &&& f.scan == w.scan
            &&& w.phase == Phase::Listed ==> f.phase == Phase::Scan && f.queue == w.scan
                && f.lumps.len() == 0
            &&& w.phase == Phase::Children ==> f.phase == Phase::Children && f.queue
                == crate::lumps::unvisited(w.queue.skip(1), f.visited) && f.lumps == w.lumps
            &&& w.phase == Phase::Scan ==> f.phase == Phase::Scan && f.queue == w.queue.skip(1)
                && f.lumps == w.lumps
        }),
{
}

/// What becomes of an entity: nothing without a class; it is left out without a model, as a preview of
/// a player or where it is not drawn; else its model is placed.
pub proof fn an_entity_is_placed_or_left_out(e: Entity)
    ensures
        ({
            let class = crate::entity::text_of(e, "classname"@);
            let model = crate::entity::text_of(e, "model"@);
            let has_class = class matches Some(c) && c.len() > 0;
            let has_model = model matches Some(m) && m.len() > 0;
            let is_preview = class == Some("csgo_player_previewmodel"@);
            let r = crate::lumps::step_of(e);
            &&& !has_class ==> r == EntityStepView::Nothing
            &&& has_class && !has_model ==> r == EntityStepView::Leave(Outcome::NoModel)
            &&& has_class && has_model && is_preview ==> r == EntityStepView::Leave(
                Outcome::Preview,
            )
            &&& has_class && has_model && !is_preview && !crate::entity::is_drawn(e) ==> r
                == EntityStepView::Leave(Outcome::Hidden)
            &&& has_class && has_model && !is_preview && crate::entity::is_drawn(e) ==> r
                == EntityStepView::Place(crate::source::compiled(model->Some_0))
        }),
{
}

/// The sun is the first entity of its class, with what its keys say, and 1 for a number that is not
/// there.
pub proof fn the_sun_is_what_its_keys_say(e: Entity)
    ensures
        ({
            let s = crate::lumps::sun_of(e);
            &&& s.angles == e.angles
            &&& s.color == crate::entity::vector_of(e, "color"@)
            &&& s.skycolor == crate::entity::vector_of(e, "skycolor"@)
            &&& s.brightness == match crate::entity::plain_number_of(e, "brightness"@) {
                Some(f) => f,
                None => 0x3F80_0000,
            }
            &&& s.brightness_scale == match crate::entity::plain_number_of(e, "brightnessscale"@) {
                Some(f) => f,
                None => 0x3F80_0000,
            }
            &&& s.skyintensity == match crate::entity::float_of(e, "skyintensity"@) {
                Some(f) => f,
                None => 0x3F80_0000,
            }
        }),
{
}

/// Where a sun is found, and which channel of the shadows is its own: that of its shadow if it has
/// one, else that of its light.
pub proof fn the_first_sun_counts(v: Seq<Entity>, i: int)
    requires
        0 <= i < v.len(),
        crate::entity::class_of(v[i]) == "light_environment"@,
        forall|j: int|
            0 <= j < i ==> !crate::text::same_ignoring_case(
                crate::entity::class_of(#[trigger] v[j]),
                "light_environment"@,
            ),
    ensures
        crate::lumps::sun_in(v) == Some(crate::lumps::sun_of(v[i])),
        crate::lumps::shadow_channel_of(v) == match crate::entity::number_of(
            v[i],
            "bakedshadowindex"@,
        ) {
            Some(n) => crate::bits::rounded_to_small(n),
            None => match crate::entity::number_of(v[i], "bakelightindex"@) {
                Some(n) => crate::bits::rounded_to_small(n),
                None => None,
            },
        },
{
    let exact = |e: Entity| crate::entity::class_of(e) == "light_environment"@;
    let loose = |e: Entity| crate::entity::has_class(e, "light_environment"@);
    lemma_first(v, exact, 0, i);
    lemma_first(v, loose, 0, i);
}

/// The search ends at the first that something holds of.
pub proof fn lemma_first(v: Seq<Entity>, holds: spec_fn(Entity) -> bool, from: int, i: int)
    requires
        0 <= from <= i < v.len(),
        holds(v[i]),
        forall|j: int| from <= j < i ==> !holds(#[trigger] v[j]),
    ensures
        crate::entity::first_where(v, holds, from) == Some(v[i]),
    decreases i - from,
{
    if from < i {
        assert(!holds(v[from]));
        lemma_first(v, holds, from + 1, i);
    }
}

/// A volume of probes is what the keys of its entity say; it is none where it lacks a corner, a size
/// or a place, or is of another class.
pub proof fn a_volume_is_what_its_keys_say(e: Entity)
    ensures
        ({
            let x = crate::entity::single_of(e, "light_probe_size_x"@);
            let y = crate::entity::single_of(e, "light_probe_size_y"@);
            let z = crate::entity::single_of(e, "light_probe_size_z"@);
            let a = crate::entity::single_of(e, "light_probe_atlas_x"@);
            let b = crate::entity::single_of(e, "light_probe_atlas_y"@);
            let c = crate::entity::single_of(e, "light_probe_atlas_z"@);
            let mins = crate::entity::vector_of(e, "box_mins"@);
            let maxs = crate::entity::vector_of(e, "box_maxs"@);
            match crate::probes::fields_of(e) {
                Some(f) => {
                    &&& crate::entity::has_class(e, "env_combined_light_probe_volume"@)
                    &&& mins is Some && f.box_mins == mins->Some_0@
                    &&& maxs is Some && f.box_maxs == maxs->Some_0@
                    &&& f.atlas_size.len() == 3
                    &&& x == Some(f.atlas_size[0])
                    &&& y == Some(f.atlas_size[1])
                    &&& z == Some(f.atlas_size[2])
                    &&& f.atlas_offset.len() == 3
                    &&& a == Some(f.atlas_offset[0])
                    &&& b == Some(f.atlas_offset[1])
                    &&& c == Some(f.atlas_offset[2])
                    &&& f.handshake == match crate::entity::number_of(e, "handshake"@) {
                        Some(n) => crate::bits::f64_truncated(n) as i64,
                        None => 0,
                    }
                    &&& f.level == match crate::entity::number_of(e, "indoor_outdoor_level"@) {
                        Some(n) => crate::bits::f64_truncated(n) as i64,
                        None => 0,
                    }
                },
                None => {
                    ||| !crate::entity::has_class(e, "env_combined_light_probe_volume"@)
                    ||| mins is None
                    ||| maxs is None
                    ||| x is None || y is None || z is None
                    ||| a is None || b is None || c is None
                },
            }
        }),
{
}

/// A volume of a higher level goes first; of the same level, that with the smaller footprint.
pub proof fn volumes_are_ordered_by_level_and_footprint(a: ProbeVolume, b: ProbeVolume)
    ensures
        a.fields.level > b.fields.level ==> crate::probes::goes_before(a, b),
        a.fields.level < b.fields.level ==> !crate::probes::goes_before(a, b),
        a.fields.level == b.fields.level && a.footprint < 0x8000_0000 && b.footprint < 0x8000_0000
            ==> crate::probes::goes_before(a, b) == (a.footprint < b.footprint),
        a.fields.level == b.fields.level && a.footprint >= 0x8000_0000 && b.footprint >= 0x8000_0000
            ==> crate::probes::goes_before(a, b) == (a.footprint > b.footprint),
        a.fields.level == b.fields.level && a.footprint >= 0x8000_0000 && b.footprint < 0x8000_0000
            ==> crate::probes::goes_before(a, b),
        a.fields.level == b.fields.level && a.footprint < 0x8000_0000 && b.footprint >= 0x8000_0000
            ==> !crate::probes::goes_before(a, b),
{
}

/// Volumes that could be read are kept in order.
pub proof fn volumes_that_are_there_are_kept(
    a: Seq<Option<ProbeVolume>>,
    b: Seq<Option<ProbeVolume>>,
)
    ensures
        crate::probes::present(a + b) == crate::probes::present(a) + crate::probes::present(b),
        a.len() == 1 ==> crate::probes::present(a) == match a[0] {
            Some(x) => seq![x],
            None => Seq::empty(),
        },
    decreases b.len(),
{
    if b.len() == 0 {
        assert(a + b =~= a);
        assert(crate::probes::present(a) =~= crate::probes::present(a) + crate::probes::present(b));
    } else {
        volumes_that_are_there_are_kept(a, b.drop_last());
        assert((a + b).drop_last() =~= a + b.drop_last());
        assert(crate::probes::present(a + b) =~= crate::probes::present(a)
            + crate::probes::present(b));
    }
    if a.len() == 1 {
        assert(crate::probes::present(a.drop_last()) =~= Seq::<ProbeVolume>::empty());
        if a[0] is Some {
            assert(crate::probes::present(a) =~= seq![a[0]->Some_0]);
        }
    }
}

/// The textures of the probes are those of the first volume that names both.
pub proof fn the_atlas_is_that_of_the_first_volume_with_both(v: Seq<Entity>, i: int)
    requires
        0 <= i < v.len(),
        crate::entity::has_class(v[i], "env_combined_light_probe_volume"@),
        crate::entity::text_of(v[i], "lightprobetexture"@) matches Some(s) && s.len() > 0,
        crate::entity::text_of(v[i], "lightprobetexture_dlshd"@) matches Some(s) && s.len() > 0,
        forall|j: int|
            0 <= j < i ==> {
                ||| !crate::entity::has_class(
                    #[trigger] v[j],
                    "env_combined_light_probe_volume"@,
                )
                ||| crate::entity::text_of(v[j], "lightprobetexture"@) is None
                ||| crate::entity::text_of(v[j], "lightprobetexture_dlshd"@) is None
            },
    ensures
        crate::probes::atlas_from(v, 0) == Some(
            (
                crate::entity::text_of(v[i], "lightprobetexture"@)->Some_0,
                crate::entity::text_of(v[i], "lightprobetexture_dlshd"@)->Some_0,
            ),
        ),
{
    lemma_atlas(v, 0, i);
}

/// The search ends at the first volume with both.
proof fn lemma_atlas(v: Seq<Entity>, from: int, i: int)
    requires
        0 <= from <= i < v.len(),
        crate::probes::atlas_of(v[i]) is Some,
        forall|j: int| from <= j < i ==> crate::probes::atlas_of(#[trigger] v[j]) is None,
    ensures
        crate::probes::atlas_from(v, from) == crate::probes::atlas_of(v[i]),
    decreases i - from,
{
    if from < i {
        assert(crate::probes::atlas_of(v[from]) is None);
        lemma_atlas(v, from + 1, i);
    }
}

/// A volume holds a point that lies in its box along each direction.
pub proof fn a_volume_holds_the_points_of_its_box(v: ProbeVolume, p: Seq<u32>)
    requires
        p.len() == 3,
    ensures
        crate::probes::holds_point(v, p) == {
            &&& crate::bits::f32_at_most(v.world_aabb_min@[0], p[0])
            &&& crate::bits::f32_at_most(p[0], v.world_aabb_max@[0])
            &&& crate::bits::f32_at_most(v.world_aabb_min@[1], p[1])
            &&& crate::bits::f32_at_most(p[1], v.world_aabb_max@[1])
            &&& crate::bits::f32_at_most(v.world_aabb_min@[2], p[2])
            &&& crate::bits::f32_at_most(p[2], v.world_aabb_max@[2])
        },
{
    if crate::probes::holds_point(v, p) {
        assert(crate::bits::f32_at_most(v.world_aabb_min@[0], p[0]));
        assert(crate::bits::f32_at_most(v.world_aabb_min@[1], p[1]));
        assert(crate::bits::f32_at_most(v.world_aabb_min@[2], p[2]));
    }
}

/// Of two cells to filter between, the first is that of the coordinate wherever it lies in the range
/// and the second the next, as long as there is one; outside the range both are at its end.
pub proof fn cells_are_those_of_the_coordinate(whole: int, lo: int, hi: int)
    requires
        lo <= hi,
    ensures
        ({
            let c = crate::probes::cell_pair(whole, lo, hi);
            &&& lo <= whole < hi ==> c.0 == whole && c.1 == whole + 1
            &&& whole < lo && lo < hi ==> c.0 == lo && c.1 == lo + 1
            &&& whole >= hi ==> c.0 == hi && c.1 == hi
        }),
        ({
            let size = whole;
            let l = crate::probes::last_cell(hi, size);
            &&& l <= hi
            &&& size > 0 ==> l < size && (l == hi || l == size - 1)
            &&& size <= 0 ==> l <= 0 && (l == hi || l == 0)
        }),
{
}

/// Using a slice takes it out of where it was and puts it last.
pub proof fn a_slice_in_use_is_the_last(a: Seq<u32>, z: u32, b: Seq<u32>)
    requires
        !a.contains(z),
        !b.contains(z),
    ensures
        crate::probes::without(a, z) == a,
        crate::probes::without(a + b, z) == a + b,
        crate::probes::without(a.push(z) + b, z) == a + b,
    decreases a.len() + b.len(),
{
    lemma_without_none(a, z);
    assert(!(a + b).contains(z)) by {
        if (a + b).contains(z) {
            let k = (a + b).index_of(z);
            if k < a.len() {
                assert(a[k] == z);
            } else {
                assert(b[k - a.len()] == z);
            }
        }
    }
    lemma_without_none(a + b, z);
    if b.len() == 0 {
        assert(a.push(z) + b =~= a.push(z));
        assert(a.push(z).drop_last() =~= a);
        assert(a + b =~= a);
    } else {
        let front = b.drop_last();
        assert((a.push(z) + b).drop_last() =~= a.push(z) + front);
        assert(b[b.len() - 1] != z) by {
            assert(b.contains(b[b.len() - 1]));
        }
        assert(!front.contains(z)) by {
            if front.contains(z) {
                let k = front.index_of(z);
                assert(b[k] == z);
            }
        }
        a_slice_in_use_is_the_last(a, z, front);
        assert(a + b =~= (a + front).push(b.last()));
    }
}

/// What is not there cannot be taken out.
proof fn lemma_without_none(a: Seq<u32>, z: u32)
    requires
        !a.contains(z),
    ensures
        crate::probes::without(a, z) == a,
    decreases a.len(),
{
    if a.len() > 0 {
        let front = a.drop_last();
        assert(a[a.len() - 1] != z) by {
            assert(a.contains(a[a.len() - 1]));
        }
        assert(!front.contains(z)) by {
            if front.contains(z) {
                let k = front.index_of(z);
                assert(a[k] == z);
            }
        }
        lemma_without_none(front, z);
        assert(a =~= front.push(a.last()));
    } else {
        assert(crate::probes::without(a, z) =~= a);
    }
}

/// The values of a cell stand row by row, so many to a cell; none are read beyond the end.
pub proof fn cells_stand_row_by_row(len: int, x: int, y: int, width: int, channels: int)
    ensures
        (y * width + x) * channels + channels <= len ==> crate::probes::cell_start(
            len,
            x,
            y,
            width,
            channels,
        ) == Some((y * width + x) * channels),
        (y * width + x) * channels + channels > len ==> crate::probes::cell_start(
            len,
            x,
            y,
            width,
            channels,
        ) is None,
{
}

/// Of the four channels of each texel the first ones are kept, in order.
pub proof fn the_first_channels_are_kept(rgba: Seq<u32>, channels: int, n: int, i: int, c: int)
    requires
        0 < channels <= 4,
        0 <= i < n,
        4 * n <= rgba.len(),
        0 <= c < channels,
    ensures
        crate::probes::first_channels(rgba, channels, n).len() == channels * n,
        0 <= channels * i + c < channels * n,
        crate::probes::first_channels(rgba, channels, n)[channels * i + c] == rgba[4 * i + c],
    decreases n,
{
    lemma_channels(rgba, channels, n - 1);
    assert(channels * n == channels * (n - 1) + channels) by (nonlinear_arith);
    assert(0 <= channels * i + c < channels * n) by (nonlinear_arith)
        requires
            0 <= i < n,
            0 <= c < channels,
    ;
    if i < n - 1 {
        the_first_channels_are_kept(rgba, channels, n - 1, i, c);
    }
}

/// How many values are kept.
proof fn lemma_channels(rgba: Seq<u32>, channels: int, n: int)
    requires
        0 < channels <= 4,
        0 <= n,
        4 * n <= rgba.len(),
    ensures
        crate::probes::first_channels(rgba, channels, n).len() == channels * n,
    decreases n,
{
    if n > 0 {
        lemma_channels(rgba, channels, n - 1);
        assert(channels * n == channels * (n - 1) + channels) by (nonlinear_arith);
    } else {
        assert(channels * n == 0) by (nonlinear_arith)
            requires
                n == 0,
        ;
    }
}

/// The groups of a list are what stands between its inner brackets.
pub proof fn groups_stand_between_inner_brackets(
    before: Seq<char>,
    group: Seq<char>,
)
    requires
        crate::cables::scanned(before).depth == 1,
        !group.contains('['),
        !group.contains(']'),
    ensures
        ({
            let s = crate::cables::scanned(before + seq!['['] + group + seq![']']);
            &&& s.depth == 1
            &&& s.groups == crate::cables::scanned(before).groups.push(group)
        }),
{
    let opened = before + seq!['['];
    assert(opened.drop_last() =~= before);
    let s = crate::cables::scanned(opened);
    assert(s.depth == 2 && s.group =~= Seq::<char>::empty());
    lemma_group(opened, group);
    let all = opened + group + seq![']'];
    assert(all.drop_last() =~= opened + group);
}

/// Letters between inner brackets are gathered.
proof fn lemma_group(before: Seq<char>, group: Seq<char>)
    requires
        crate::cables::scanned(before).depth == 2,
        crate::cables::scanned(before).group.len() == 0,
        !group.contains('['),
        !group.contains(']'),
    ensures
        crate::cables::scanned(before + group).depth == 2,
        crate::cables::scanned(before + group).group == group,
        crate::cables::scanned(before + group).groups == crate::cables::scanned(before).groups,
    decreases group.len(),
{
    if group.len() == 0 {
        assert(before + group =~= before);
        assert(crate::cables::scanned(before).group =~= group);
    } else {
        let front = group.drop_last();
        assert((before + group).drop_last() =~= before + front);
        assert(group.contains(group[group.len() - 1]));
        assert(!front.contains('[') && !front.contains(']')) by {
            if front.contains('[') {
                assert(group[front.index_of('[')] == '[');
            }
            if front.contains(']') {
                assert(group[front.index_of(']')] == ']');
            }
        }
        lemma_group(before, front);
        assert(group =~= front.push(group.last()));
    }
}

/// Outside inner brackets nothing is gathered.
pub proof fn nothing_is_gathered_outside_inner_brackets(before: Seq<char>, c: char)
    requires
        c != '[',
        c != ']',
        crate::cables::scanned(before).depth != 2,
    ensures
        crate::cables::scanned(before.push(c)) == crate::cables::scanned(before),
        crate::cables::scanned(Seq::<char>::empty()).depth == 0,
        crate::cables::scanned(Seq::<char>::empty()).groups.len() == 0,
        crate::cables::scanned(before.push('[')).depth == crate::cables::scanned(before).depth + 1,
        crate::cables::scanned(before.push('[')).groups == crate::cables::scanned(before).groups,
        crate::cables::scanned(before.push(']')).depth == crate::cables::scanned(before).depth - 1,
        crate::cables::scanned(before.push(']')).groups == crate::cables::scanned(before).groups,
{
    assert(before.push(c).drop_last() =~= before);
    assert(before.push('[').drop_last() =~= before);
    assert(before.push(']').drop_last() =~= before);
}

/// A node of a cable is nine numbers: its place, where it is entered from and where it is left to.
pub proof fn a_node_is_nine_numbers(n: Seq<u32>)
    ensures
        match crate::cables::node_of(n) {
            Some(p) => {
                &&& n.len() == 9
                &&& p.pos == (n[0], n[1], n[2])
                &&& p.in_tangent == (n[3], n[4], n[5])
                &&& p.out_tangent == (n[6], n[7], n[8])
            },
            None => n.len() != 9,
        },
{
}

/// The nodes of a cable come in order, and so do the numbers of a group; what is none is left out.
pub proof fn nodes_come_in_order(
    a: Seq<Seq<Option<u32>>>,
    b: Seq<Seq<Option<u32>>>,
    p: Seq<Option<u32>>,
    q: Seq<Option<u32>>,
)
    ensures
        crate::cables::nodes_of(a + b) == crate::cables::nodes_of(a) + crate::cables::nodes_of(b),
        a.len() == 1 ==> crate::cables::nodes_of(a) == match crate::cables::node_of(
            crate::cables::numbers_in(a[0]),
        ) {
            Some(n) => seq![n],
            None => Seq::empty(),
        },
        crate::cables::numbers_in(p + q) == crate::cables::numbers_in(p)
            + crate::cables::numbers_in(q),
        p.len() == 1 ==> crate::cables::numbers_in(p) == match p[0] {
            Some(n) => seq![n],
            None => Seq::empty(),
        },
    decreases b.len(), q.len(),
{
    if b.len() == 0 {
        assert(a + b =~= a);
        assert(crate::cables::nodes_of(a) =~= crate::cables::nodes_of(a)
            + crate::cables::nodes_of(b));
    } else {
        nodes_come_in_order(a, b.drop_last(), p, q);
        assert((a + b).drop_last() =~= a + b.drop_last());
        assert(crate::cables::nodes_of(a + b) =~= crate::cables::nodes_of(a)
            + crate::cables::nodes_of(b));
    }
    if a.len() == 1 {
        assert(crate::cables::nodes_of(a.drop_last()) =~= Seq::<PathNode>::empty());
        if crate::cables::node_of(crate::cables::numbers_in(a[0])) is Some {
            assert(crate::cables::nodes_of(a) =~= seq![
                crate::cables::node_of(crate::cables::numbers_in(a[0]))->Some_0,
            ]);
        }
    }
    if q.len() == 0 {
        assert(p + q =~= p);
        assert(crate::cables::numbers_in(p) =~= crate::cables::numbers_in(p)
            + crate::cables::numbers_in(q));
    } else {
        nodes_come_in_order(a, b, p, q.drop_last());
        assert((p + q).drop_last() =~= p + q.drop_last());
        assert(crate::cables::numbers_in(p + q) =~= crate::cables::numbers_in(p)
            + crate::cables::numbers_in(q));
    }
    if p.len() == 1 {
        assert(crate::cables::numbers_in(p.drop_last()) =~= Seq::<u32>::empty());
        if p[0] is Some {
            assert(crate::cables::numbers_in(p) =~= seq![p[0]->Some_0]);
        }
    }
}

/// Each side of a tube is two triangles between a ring and the next: of five vertices to a ring, side
/// `j` behind ring `i` joins the `j`th and the next of both.
pub proof fn sides_join_a_ring_and_the_next(n: int, i: int, j: int)
    requires
        0 <= i,
        0 <= j < 4,
        4 * i + j < n,
        5 * (i + 2) <= u32::MAX,
    ensures
        ({
            let t = crate::cables::tube_triangles(n);
            let at = 6 * (4 * i + j);
            &&& t.len() == 6 * n
            &&& t[at] == 5 * i + j
            &&& t[at + 1] == 5 * i + j + 1
            &&& t[at + 2] == 5 * (i + 1) + j + 1
            &&& t[at + 3] == 5 * i + j
            &&& t[at + 4] == 5 * (i + 1) + j + 1
            &&& t[at + 5] == 5 * (i + 1) + j
        }),
    decreases n,
{
    lemma_tube(n - 1);
    if 4 * i + j < n - 1 {
        sides_join_a_ring_and_the_next(n - 1, i, j);
    } else {
        assert((n - 1) / 4 == i && (n - 1) % 4 == j);
    }
}

/// How many corners the triangles have.
proof fn lemma_tube(n: int)
    requires
        0 <= n,
    ensures
        crate::cables::tube_triangles(n).len() == 6 * n,
    decreases n,
{
    if n > 0 {
        lemma_tube(n - 1);
    }
}

/// A group of materials is found by its name; the first counts. A skin is put on only where both it and the
/// default one are there.
pub proof fn a_skin_needs_its_group_and_the_default(
    groups: Seq<crate::model::MaterialGroup>,
    skin: Seq<char>,
    from: int,
)
    requires
        0 <= from <= groups.len(),
    ensures
        match crate::entity::group_from(groups, skin, from) {
            Some(g) => exists|i: int|
                from <= i < groups.len() && #[trigger] groups[i] == g && g.name@ == skin && forall|
                    k: int,
                |
                    from <= k < i ==> (#[trigger] groups[k]).name@ != skin,
            None => forall|k: int| from <= k < groups.len() ==> (#[trigger] groups[k]).name@ != skin,
        },
        ({
            let d = crate::entity::group_from(groups, "default"@, 0);
            let s = crate::entity::group_from(groups, skin, 0);
            match crate::entity::remap_of(groups, skin) {
                Some(m) => {
                    &&& d is Some && s is Some
                    &&& m == crate::entity::matched(
                        d->Some_0.materials@,
                        s->Some_0.materials@,
                        d->Some_0.materials@.len() as int,
                    )
                },
                None => d is None || s is None,
            }
        }),
    decreases groups.len() - from,
{
    if from < groups.len() && groups[from].name@ != skin {
        a_skin_needs_its_group_and_the_default(groups, skin, from + 1);
    } else if from < groups.len() {
        assert(groups[from] == groups[from]);
    }
}

/// A colour is in bytes if any of its numbers is.
pub proof fn a_colour_is_in_bytes_if_any_number_is(c: Seq<u32>)
    requires
        c.len() == 3,
    ensures
        crate::entity::any_byte(c) == exists|i: int|
            0 <= i < 3 && crate::entity::is_byte(#[trigger] c[i]),
{
    if crate::entity::any_byte(c) {
        if crate::entity::is_byte(c[0]) {
        } else if crate::entity::is_byte(c[1]) {
        } else {
            assert(crate::entity::is_byte(c[2]));
        }
    }
    if exists|i: int| 0 <= i < 3 && crate::entity::is_byte(#[trigger] c[i]) {
        let i = choose|i: int| 0 <= i < 3 && crate::entity::is_byte(#[trigger] c[i]);
        assert(i == 0 || i == 1 || i == 2);
    }
}

/// The volumes of probes among entities are those of their class, in order.
pub proof fn volumes_are_those_of_their_class(v: Seq<Entity>, e: Entity)
    ensures
        crate::probes::volumes_among(v.push(e)) == if crate::text::same_ignoring_case(
            crate::entity::class_of(e),
            "env_combined_light_probe_volume"@,
        ) {
            crate::probes::volumes_among(v).push(e)
        } else {
            crate::probes::volumes_among(v)
        },
        crate::probes::volumes_among(Seq::empty()).len() == 0,
{
    reveal(Seq::filter);
    assert(v.push(e).drop_last() =~= v);
}

/// The atlas is that of the first lump with one.
pub proof fn the_atlas_is_that_of_the_first_lump(v: Seq<EntityLump>, from: int, i: int)
    requires
        0 <= from <= i < v.len(),
        crate::probes::atlas_from(v[i].entities@, 0) is Some,
        forall|k: int|
            from <= k < i ==> crate::probes::atlas_from((#[trigger] v[k]).entities@, 0) is None,
    ensures
        crate::probes::atlas_in(v, from) == crate::probes::atlas_from(v[i].entities@, 0),
    decreases i - from,
{
    if from < i {
        assert(crate::probes::atlas_from(v[from].entities@, 0) is None);
        the_atlas_is_that_of_the_first_lump(v, from + 1, i);
    }
}

/// A number is rounded to the nearest of 0 to 3, a half up and what is no number to 0; beyond those there is
/// none.
pub proof fn small_numbers_are_rounded(bits: u64)
    ensures
        ({
            let r = crate::bits::rounded_to_small(bits);
            &&& bits < 0x3FE0_0000_0000_0000 ==> r == Some(0i64)
            &&& 0x3FE0_0000_0000_0000 <= bits < 0x3FF8_0000_0000_0000 ==> r == Some(1i64)
            &&& 0x3FF8_0000_0000_0000 <= bits < 0x4004_0000_0000_0000 ==> r == Some(2i64)
            &&& 0x4004_0000_0000_0000 <= bits < 0x400C_0000_0000_0000 ==> r == Some(3i64)
            &&& 0x400C_0000_0000_0000 <= bits <= 0x7FF0_0000_0000_0000 ==> r is None
            &&& 0x7FF0_0000_0000_0000 < bits < 0x8000_0000_0000_0000 ==> r == Some(0i64)
            &&& 0x8000_0000_0000_0000 <= bits < 0xBFE0_0000_0000_0000 ==> r == Some(0i64)
            &&& 0xBFE0_0000_0000_0000 <= bits <= 0xFFF0_0000_0000_0000 ==> r is None
            &&& 0xFFF0_0000_0000_0000 < bits ==> r == Some(0i64)
        }),
{
}

/// A single is in order by its bits, the other way round below nought, with one nought; what is no number is
/// in no order.
pub proof fn singles_are_ordered_by_their_bits(a: u32, b: u32)
    ensures
        ({
            let le = crate::bits::f32_at_most(a, b);
            let positive = |x: u32| x <= 0x7F80_0000;
            let negative = |x: u32| 0x8000_0000 <= x <= 0xFF80_0000;
            &&& positive(a) && positive(b) ==> le == (a <= b)
            &&& negative(a) && negative(b) ==> le == (a >= b)
            &&& negative(a) && positive(b) ==> le
            &&& positive(a) && negative(b) ==> le == (a == 0 && b == 0x8000_0000)
            &&& !positive(a) && !negative(a) ==> !le
            &&& !positive(b) && !negative(b) ==> !le
            &&& positive(a) || negative(a) ==> !crate::bits::f32_nan(a)
            &&& !positive(a) && !negative(a) ==> crate::bits::f32_nan(a)
        }),
{
}

/// The brackets around a text are taken away, those that open before it and those that close behind it, and
/// nothing else.
pub proof fn outer_brackets_are_taken_away(n: nat, s: Seq<char>)
    ensures
        s.len() == 0 || s[0] != '[' ==> crate::cables::after_open(repeated('[', n) + s) == s,
        s.len() == 0 || s.last() != ']' ==> crate::cables::before_close(s + repeated(']', n)) == s,
    decreases n,
{
    if n == 0 {
        assert(repeated('[', n) + s =~= s);
        assert(s + repeated(']', n) =~= s);
    } else {
        let m = (n - 1) as nat;
        outer_brackets_are_taken_away(m, s);
        assert((repeated('[', n) + s)[0] == '[');
        assert((repeated('[', n) + s).skip(1) =~= repeated('[', m) + s);
        assert((s + repeated(']', n)).last() == ']');
        assert((s + repeated(']', n)).drop_last() =~= s + repeated(']', m));
    }
}

/// A sign, so many times.
pub open spec fn repeated(c: char, n: nat) -> Seq<char> {
    Seq::new(n, |i: int| c)
}

/// Without a volume that names both textures there is no atlas.
pub proof fn without_a_volume_with_both_there_is_no_atlas(v: Seq<Entity>, from: int)
    requires
        0 <= from <= v.len(),
        forall|j: int|
            from <= j < v.len() ==> {
                ||| !crate::entity::has_class(
                    #[trigger] v[j],
                    "env_combined_light_probe_volume"@,
                )
                ||| crate::entity::text_of(v[j], "lightprobetexture"@) is None
                ||| crate::entity::text_of(v[j], "lightprobetexture_dlshd"@) is None
            },
    ensures
        crate::probes::atlas_from(v, from) is None,
    decreases v.len() - from,
{
    if from < v.len() {
        assert(crate::probes::atlas_of(v[from]) is None);
        without_a_volume_with_both_there_is_no_atlas(v, from + 1);
    }
}

/// Nor is there one where no lump has one.
pub proof fn without_a_lump_with_one_there_is_no_atlas(v: Seq<EntityLump>, from: int)
    requires
        0 <= from <= v.len(),
        forall|k: int|
            from <= k < v.len() ==> crate::probes::atlas_from(
                (#[trigger] v[k]).entities@,
                0,
            ) is None,
    ensures
        crate::probes::atlas_in(v, from) is None,
    decreases v.len() - from,
{
    if from < v.len() {
        assert(crate::probes::atlas_from(v[from].entities@, 0) is None);
        without_a_lump_with_one_there_is_no_atlas(v, from + 1);
    }
}

} // verus!
