//! The entity lumps of a map: which of them are read, and what their entities ask for.

use crate::bits::{round_to_small, F32_ONE};
use crate::entity::{find_entity, should_render, Entity, EntityLump};
use crate::report::Outcome;
use crate::source::compiled_path;
use crate::text::{concat, forward_slashes, same, to_ascii_lowercase};
use vstd::prelude::*;

verus! {

/// The path of an entity lump.
pub open spec fn lump_path(name: Seq<char>) -> Seq<char> {
    crate::text::ascii_lowered(crate::text::forward_slashed(name)) + "_c"@
}

/// The path of an entity lump: with forward slashes, in lower case, and compiled.
pub fn entity_lump_path(name: &str) -> (r: String)
    ensures
        r@ == lump_path(name@),
{
    let slashed: String = forward_slashes(name);
    let lower: String = to_ascii_lowercase(slashed.as_str());
    concat(lower.as_str(), "_c")
}

/// The paths of named lumps.
pub open spec fn lump_paths(names: Seq<String>) -> Seq<Seq<char>> {
    Seq::new(names.len(), |i: int| lump_path(names[i]@))
}

/// The paths of named lumps.
fn write_paths(names: &Vec<String>) -> (r: Vec<String>)
    ensures
        crate::text::texts(r@) == lump_paths(names@),
{
    let mut out: Vec<String> = Vec::new();
    let mut i: usize = 0;
    while i < names.len()
        invariant
            i <= names@.len(),
            crate::text::texts(out@) =~= lump_paths(names@).take(i as int),
        decreases names@.len() - i,
    {
        let p: String = entity_lump_path(names[i].as_str());
        proof {
            crate::text::lemma_texts_push(out@, p);
            assert(lump_paths(names@).take(i + 1) =~= lump_paths(names@).take(i as int).push(p@));
        }
        out.push(p);
        i += 1;
    }
    assert(lump_paths(names@).take(i as int) =~= lump_paths(names@));
    out
}

/// Which lumps are being read.
#[derive(Debug, Clone, Copy, PartialEq, Eq, Structural)]
pub enum Phase {
    /// Those that the world lists.
    Listed,
    /// Those that other lumps name as their children.
    Children,
    /// All that the map has, where the listed ones cannot be had.
    Scan,
}

/// The walk through the lumps of a map. The lumps that the world lists are read first, then the
/// children of every lump that was read, each once. Where the world lists none, or one of the
/// listed lumps cannot be read, every lump of the map is read instead.
#[derive(Debug)]
pub struct LumpWalk {
    phase: Phase,
    queue: Vec<String>,
    visited: Vec<String>,
    scan: Vec<String>,
    lumps: Vec<EntityLump>,
    failures: Vec<String>,
}

/// A [`LumpWalk`] as plain values.
pub struct WalkView {
    pub phase: Phase,
    /// The paths that are still to be read, the next first.
    pub queue: Seq<Seq<char>>,
    /// The paths that were read or tried.
    pub visited: Seq<Seq<char>>,
    /// The paths of all lumps of the map.
    pub scan: Seq<Seq<char>>,
    pub lumps: Seq<EntityLump>,
    pub failures: Seq<Seq<char>>,
}

impl View for LumpWalk {
    type V = WalkView;

    closed spec fn view(&self) -> WalkView {
        WalkView {
            phase: self.phase,
            queue: crate::text::texts(self.queue@),
            visited: crate::text::texts(self.visited@),
            scan: crate::text::texts(self.scan@),
            lumps: self.lumps@,
            failures: crate::text::texts(self.failures@),
        }
    }
}

/// A queue from the first path on that was not visited.
pub open spec fn unvisited(queue: Seq<Seq<char>>, visited: Seq<Seq<char>>) -> Seq<Seq<char>>
    decreases queue.len(),
{
    if queue.len() > 0 && visited.contains(queue[0]) {
        unvisited(queue.skip(1), visited)
    } else {
        queue
    }
}

/// The children of lumps, one lump after the other.
pub open spec fn children_of(lumps: Seq<EntityLump>) -> Seq<Seq<char>>
    decreases lumps.len(),
{
    if lumps.len() == 0 {
        Seq::empty()
    } else {
        children_of(lumps.drop_last()) + lump_paths(lumps.last().child_lumps@)
    }
}

/// The start of a walk.
pub open spec fn walk_start(listed: Seq<String>, scan: Seq<Seq<char>>) -> WalkView {
    WalkView {
        phase: if listed.len() > 0 {
            Phase::Listed
        } else {
            Phase::Scan
        },
        queue: if listed.len() > 0 {
            lump_paths(listed)
        } else {
            scan
        },
        visited: Seq::empty(),
        scan,
        lumps: Seq::empty(),
        failures: Seq::empty(),
    }
}

/// The walk after the next lump was read.
pub open spec fn after_lump(w: WalkView, lump: EntityLump) -> WalkView {
    let lumps = w.lumps.push(lump);
    let visited = w.visited.push(w.queue[0]);
    let rest = w.queue.skip(1);
    match w.phase {
        Phase::Listed => if rest.len() > 0 {
            WalkView { queue: rest, visited, lumps, ..w }
        } else {
            WalkView {
                phase: Phase::Children,
                queue: unvisited(children_of(lumps), visited),
                visited,
                lumps,
                ..w
            }
        },
        Phase::Children => WalkView {
            queue: unvisited(rest + lump_paths(lump.child_lumps@), visited),
            visited,
            lumps,
            ..w
        },
        Phase::Scan => WalkView { queue: rest, visited, lumps, ..w },
    }
}

/// The walk after the next lump could not be read.
pub open spec fn after_failure(w: WalkView, why: Seq<char>) -> WalkView {
    let failures = w.failures.push(why);
    let visited = w.visited.push(w.queue[0]);
    let rest = w.queue.skip(1);
    match w.phase {
        Phase::Listed => WalkView {
            phase: Phase::Scan,
            queue: w.scan,
            visited,
            lumps: Seq::empty(),
            failures,
            ..w
        },
        Phase::Children => WalkView { queue: unvisited(rest, visited), visited, failures, ..w },
        Phase::Scan => WalkView { queue: rest, visited, failures, ..w },
    }
}

/// Whether no child is asked for that was visited.
pub open spec fn asks_once(w: WalkView) -> bool {
    w.phase == Phase::Children && w.queue.len() > 0 ==> !w.visited.contains(w.queue[0])
}

/// A queue from the first path on that was not visited starts with such a path.
proof fn lemma_unvisited(queue: Seq<Seq<char>>, visited: Seq<Seq<char>>)
    ensures
        unvisited(queue, visited).len() <= queue.len(),
        unvisited(queue, visited).len() > 0 ==> !visited.contains(unvisited(queue, visited)[0]),
    decreases queue.len(),
{
    if queue.len() > 0 && visited.contains(queue[0]) {
        lemma_unvisited(queue.skip(1), visited);
    }
}

/// A child that was read or tried is not asked for again, whatever the lumps name as their
/// children.
pub proof fn children_are_read_once(w: WalkView, lump: EntityLump, why: Seq<char>)
    requires
        w.queue.len() > 0,
    ensures
        asks_once(after_lump(w, lump)),
        asks_once(after_failure(w, why)),
        after_lump(w, lump).visited.contains(w.queue[0]),
        after_failure(w, why).visited.contains(w.queue[0]),
{
    let visited = w.visited.push(w.queue[0]);
    assert(visited[w.visited.len() as int] == w.queue[0]);
    lemma_unvisited(children_of(w.lumps.push(lump)), visited);
    lemma_unvisited(w.queue.skip(1) + lump_paths(lump.child_lumps@), visited);
    lemma_unvisited(w.queue.skip(1), visited);
}

/// A listed lump that cannot be read makes the walk begin anew with all lumps of the map.
pub proof fn one_bad_listed_lump_makes_all_be_read(w: WalkView, why: Seq<char>)
    requires
        w.phase == Phase::Listed,
        w.queue.len() > 0,
    ensures
        after_failure(w, why).phase == Phase::Scan,
        after_failure(w, why).queue == w.scan,
        after_failure(w, why).lumps.len() == 0,
        after_failure(w, why).failures.last() == why,
{
}

/// Whether a text is in a list.
fn holds_text(v: &Vec<String>, s: &str) -> (r: bool)
    ensures
        r == crate::text::texts(v@).contains(s@),
{
    let mut i: usize = 0;
    while i < v.len()
        invariant
            i <= v@.len(),
            forall|k: int| 0 <= k < i ==> #[trigger] crate::text::texts(v@)[k] != s@,
        decreases v@.len() - i,
    {
        assert(crate::text::texts(v@)[i as int] == v@[i as int]@);
        if same(v[i].as_str(), s) {
            return true;
        }
        i += 1;
    }
    false
}

/// Puts texts at the end of a list.
fn extend(v: &mut Vec<String>, more: Vec<String>)
    ensures
        crate::text::texts(final(v)@) == crate::text::texts(old(v)@) + crate::text::texts(more@),
{
    let ghost before = crate::text::texts(v@);
    let ghost all = crate::text::texts(more@);
    assert(before + all.take(0) =~= before);
    let mut i: usize = 0;
    while i < more.len()
        invariant
            i <= more@.len(),
            all == crate::text::texts(more@),
            crate::text::texts(v@) == before + all.take(i as int),
        decreases more@.len() - i,
    {
        let s: String = more[i].clone();
        proof {
            crate::text::lemma_texts_push(v@, s);
            assert(before + all.take(i + 1) =~= (before + all.take(i as int)).push(s@));
        }
        v.push(s);
        i += 1;
    }
    assert(all.take(i as int) =~= all);
}

impl LumpWalk {
    /// The start of a walk: `listed` holds the names that the world lists, and `scan` the paths of
    /// all lumps of the map.
    pub fn new(listed: &Vec<String>, scan: Vec<String>) -> (r: LumpWalk)
        ensures
            r@ == walk_start(listed@, crate::text::texts(scan@)),
    {
        let visited: Vec<String> = Vec::new();
        let failures: Vec<String> = Vec::new();
        proof {
            assert(crate::text::texts(visited@) =~= Seq::<Seq<char>>::empty());
            assert(crate::text::texts(failures@) =~= Seq::<Seq<char>>::empty());
        }
        if listed.len() > 0 {
            LumpWalk {
                phase: Phase::Listed,
                queue: write_paths(listed),
                visited,
                scan,
                lumps: Vec::new(),
                failures,
            }
        } else {
            let mut queue: Vec<String> = Vec::new();
            let mut all: Vec<String> = Vec::new();
            let mut i: usize = 0;
            while i < scan.len()
                invariant
                    i <= scan@.len(),
                    crate::text::texts(queue@) =~= crate::text::texts(scan@).take(i as int),
                    crate::text::texts(all@) =~= crate::text::texts(scan@).take(i as int),
                decreases scan@.len() - i,
            {
                let a: String = scan[i].clone();
                let b: String = scan[i].clone();
                proof {
                    crate::text::lemma_texts_push(queue@, a);
                    crate::text::lemma_texts_push(all@, b);
                }
                queue.push(a);
                all.push(b);
                i += 1;
            }
            assert(crate::text::texts(scan@).take(i as int) =~= crate::text::texts(scan@));
            LumpWalk {
                phase: Phase::Scan,
                queue,
                visited,
                scan: all,
                lumps: Vec::new(),
                failures,
            }
        }
    }

    /// The path of the lump to read next; none where the walk is done.
    pub fn next(&self) -> (r: Option<&String>)
        ensures
            match r {
                Some(s) => self@.queue.len() > 0 && s@ == self@.queue[0],
                None => self@.queue.len() == 0,
            },
    {
        if self.queue.len() > 0 {
            Some(&self.queue[0])
        } else {
            None
        }
    }

    /// Moves the next path to those that were visited.
    fn visit(&mut self)
        requires
            old(self)@.queue.len() > 0,
        ensures
            final(self)@ == (WalkView {
                queue: old(self)@.queue.skip(1),
                visited: old(self)@.visited.push(old(self)@.queue[0]),
                ..old(self)@
            }),
    {
        let ghost before = self@;
        let ghost queue = self.queue@;
        let path: String = self.queue.remove(0);
        proof {
            assert(crate::text::texts(queue)[0] == path@);
            assert(crate::text::texts(self.queue@) =~= before.queue.skip(1)) by {
                assert forall|i: int| 0 <= i < self.queue@.len() implies
                    crate::text::texts(self.queue@)[i] == before.queue.skip(1)[i] by {
                    assert(crate::text::texts(queue)[i + 1] == queue[i + 1]@);
                }
            }
            crate::text::lemma_texts_push(self.visited@, path);
        }
        self.visited.push(path);
    }

    /// Drops paths that were visited from the front of the queue.
    fn skip_visited(&mut self)
        ensures
            final(self)@ == (WalkView {
                queue: unvisited(old(self)@.queue, old(self)@.visited),
                ..old(self)@
            }),
    {
        let ghost before = self@;
        while self.queue.len() > 0 && holds_text(&self.visited, self.queue[0].as_str())
            invariant
                self@ == (WalkView { queue: self@.queue, ..before }),
                unvisited(self@.queue, before.visited) == unvisited(before.queue, before.visited),
            decreases self.queue@.len(),
        {
            let ghost queue = self.queue@;
            let ghost views = crate::text::texts(queue);
            let _ = self.queue.remove(0);
            proof {
                assert(crate::text::texts(self.queue@) =~= views.skip(1)) by {
                    assert forall|i: int| 0 <= i < self.queue@.len() implies
                        crate::text::texts(self.queue@)[i] == views.skip(1)[i] by {
                        assert(views[i + 1] == queue[i + 1]@);
                    }
                }
            }
        }
    }

    /// The paths of the children of the lumps that were read.
    fn all_children(&self) -> (r: Vec<String>)
        ensures
            crate::text::texts(r@) == children_of(self@.lumps),
    {
        let mut out: Vec<String> = Vec::new();
        assert(crate::text::texts(out@) =~= children_of(self.lumps@.take(0)));
        let mut i: usize = 0;
        while i < self.lumps.len()
            invariant
                i <= self.lumps@.len(),
                crate::text::texts(out@) == children_of(self.lumps@.take(i as int)),
            decreases self.lumps@.len() - i,
        {
            let more: Vec<String> = write_paths(&self.lumps[i].child_lumps);
            extend(&mut out, more);
            proof {
                assert(self.lumps@.take(i + 1).drop_last() =~= self.lumps@.take(i as int));
                assert(self.lumps@.take(i + 1).last() == self.lumps@[i as int]);
            }
            i += 1;
        }
        assert(self.lumps@.take(i as int) =~= self.lumps@);
        out
    }

    /// Takes the lump that was read last.
    pub fn take(&mut self, lump: EntityLump)
        requires
            old(self)@.queue.len() > 0,
        ensures
            final(self)@ == after_lump(old(self)@, lump),
    {
        self.visit();
        match self.phase {
            Phase::Listed => {
                self.lumps.push(lump);
                if self.queue.len() == 0 {
                    self.phase = Phase::Children;
                    self.queue = self.all_children();
                    self.skip_visited();
                }
            },
            Phase::Children => {
                let more: Vec<String> = write_paths(&lump.child_lumps);
                extend(&mut self.queue, more);
                self.lumps.push(lump);
                self.skip_visited();
            },
            Phase::Scan => {
                self.lumps.push(lump);
            },
        }
    }

    /// Takes down that the lump could not be read.
    pub fn fail(&mut self, why: String)
        requires
            old(self)@.queue.len() > 0,
        ensures
            final(self)@ == after_failure(old(self)@, why@),
    {
        self.visit();
        proof {
            crate::text::lemma_texts_push(self.failures@, why);
        }
        self.failures.push(why);
        match self.phase {
            Phase::Listed => {
                self.phase = Phase::Scan;
                self.lumps = Vec::new();
                let mut queue: Vec<String> = Vec::new();
                let mut i: usize = 0;
                let ghost before = self@;
                while i < self.scan.len()
                    invariant
                        i <= self.scan@.len(),
                        self@ == before,
                        before.scan == crate::text::texts(self.scan@),
                        crate::text::texts(queue@) =~= before.scan.take(i as int),
                    decreases self.scan@.len() - i,
                {
                    let s: String = self.scan[i].clone();
                    proof {
                        crate::text::lemma_texts_push(queue@, s);
                    }
                    queue.push(s);
                    i += 1;
                }
                assert(before.scan.take(i as int) =~= before.scan);
                self.queue = queue;
            },
            Phase::Children => {
                self.skip_visited();
            },
            Phase::Scan => {},
        }
    }

    /// The lumps that were read, and the messages for those that could not be.
    pub fn finish(self) -> (r: (Vec<EntityLump>, Vec<String>))
        ensures
            r.0@ == self@.lumps,
            crate::text::texts(r.1@) == self@.failures,
    {
        (self.lumps, self.failures)
    }
}

/// What is done with an entity.
#[derive(Debug, Clone)]
pub enum EntityStep {
    /// It has no class: nothing, it does not even count.
    Nothing,
    /// It is not placed, and counts as such.
    Leave(Outcome),
    /// Its model is placed, by the path of its resource.
    Place(String),
}

/// The model that an entity names; empty where it names none.
pub open spec fn model_of(e: Entity) -> Seq<char> {
    match crate::entity::text_of(e, "model"@) {
        Some(m) => m,
        None => Seq::empty(),
    }
}

/// An [`EntityStep`] as plain values.
pub enum EntityStepView {
    Nothing,
    Leave(Outcome),
    Place(Seq<char>),
}

impl View for EntityStep {
    type V = EntityStepView;

    open spec fn view(&self) -> EntityStepView {
        match *self {
            EntityStep::Nothing => EntityStepView::Nothing,
            EntityStep::Leave(outcome) => EntityStepView::Leave(outcome),
            EntityStep::Place(path) => EntityStepView::Place(path@),
        }
    }
}

/// What is done with an entity: one that has no model, only shows what a player looks like, or is
/// hidden is not placed.
pub open spec fn step_of(e: Entity) -> EntityStepView {
    let class = crate::entity::class_of(e);
    let model = model_of(e);
    if class.len() == 0 {
        EntityStepView::Nothing
    } else if model.len() == 0 {
        EntityStepView::Leave(Outcome::NoModel)
    } else if class == "csgo_player_previewmodel"@ {
        EntityStepView::Leave(Outcome::Preview)
    } else if !crate::entity::is_drawn(e) {
        EntityStepView::Leave(Outcome::Hidden)
    } else {
        EntityStepView::Place(crate::source::compiled(model))
    }
}

/// What is done with an entity.
pub fn entity_step(e: &Entity) -> (r: EntityStep)
    ensures
        r@ == step_of(*e),
{
    let class: String = e.classname();
    if class.as_str().unicode_len() == 0 {
        return EntityStep::Nothing;
    }
    let model: &String = match e.get_str("model") {
        Some(m) => m,
        None => {
            return EntityStep::Leave(Outcome::NoModel);
        },
    };
    if model.as_str().unicode_len() == 0 {
        return EntityStep::Leave(Outcome::NoModel);
    }
    if same(class.as_str(), "csgo_player_previewmodel") {
        return EntityStep::Leave(Outcome::Preview);
    }
    if !should_render(e) {
        return EntityStep::Leave(Outcome::Hidden);
    }
    EntityStep::Place(compiled_path(model.as_str()))
}

/// The name of the nodes of an entity: its own, else that of its class.
pub fn node_name(e: &Entity) -> (r: String)
    ensures
        r@ == (match crate::entity::target_of(*e) {
            Some(t) => t,
            None => crate::entity::class_of(*e),
        }),
{
    match e.targetname() {
        Some(t) => t.clone(),
        None => e.classname(),
    }
}

/// What an entity says of the sun: as the bits of singles.
#[derive(Debug, Clone, Copy)]
pub struct SunFields {
    pub angles: [u32; 3],
    /// From 0 to 255; white where it is missing.
    pub color: Option<[u32; 3]>,
    pub brightness: u32,
    pub brightness_scale: u32,
    /// From 0 to 255; white where it is missing.
    pub skycolor: Option<[u32; 3]>,
    pub skyintensity: u32,
}

/// A single, or 1 where it is missing.
pub open spec fn one_or(v: Option<u32>) -> u32 {
    match v {
        Some(v) => v,
        None => F32_ONE,
    }
}

/// What an entity says of the sun.
pub open spec fn sun_of(e: Entity) -> SunFields {
    SunFields {
        angles: e.angles,
        color: crate::entity::vector_of(e, "color"@),
        brightness: one_or(crate::entity::plain_number_of(e, "brightness"@)),
        brightness_scale: one_or(crate::entity::plain_number_of(e, "brightnessscale"@)),
        skycolor: crate::entity::vector_of(e, "skycolor"@),
        skyintensity: one_or(crate::entity::float_of(e, "skyintensity"@)),
    }
}

/// The sun among entities: what the first of its class says.
pub open spec fn sun_in(v: Seq<Entity>) -> Option<SunFields> {
    match crate::entity::first_where(
        v,
        |e: Entity| crate::entity::class_of(e) == "light_environment"@,
        0,
    ) {
        Some(e) => Some(sun_of(e)),
        None => None,
    }
}

/// The first of two lists, one behind the other, is the first of the one, or else of the other.
proof fn lemma_first_of_two(
    a: Seq<Entity>,
    b: Seq<Entity>,
    holds: spec_fn(Entity) -> bool,
    from: int,
)
    requires
        0 <= from <= a.len() + b.len(),
    ensures
        crate::entity::first_where(a + b, holds, from) == (if from < a.len() {
            match crate::entity::first_where(a, holds, from) {
                Some(e) => Some(e),
                None => crate::entity::first_where(b, holds, 0),
            }
        } else {
            crate::entity::first_where(b, holds, from - a.len())
        }),
    decreases a.len() + b.len() - from,
{
    let both = a + b;
    if from < both.len() {
        lemma_first_of_two(a, b, holds, from + 1);
        if from < a.len() {
            assert(both[from] == a[from]);
        } else {
            assert(both[from] == b[from - a.len()]);
        }
    }
}

/// A lump more leaves the sun as it is where there is one; else the first entity of the lump that is
/// of its class gives it.
pub proof fn the_first_sun_stays(lumps: Seq<EntityLump>, lump: EntityLump)
    ensures
        sun_in(crate::entity::all_entities(lumps.push(lump))) == (match sun_in(
            crate::entity::all_entities(lumps),
        ) {
            Some(s) => Some(s),
            None => sun_in(lump.entities@),
        }),
{
    let before = crate::entity::all_entities(lumps);
    let holds = |e: Entity| crate::entity::class_of(e) == "light_environment"@;
    assert(lumps.push(lump).drop_last() =~= lumps);
    assert(crate::entity::all_entities(lumps.push(lump)) =~= before + lump.entities@);
    lemma_first_of_two(before, lump.entities@, holds, 0);
}

/// A single, or 1 where it is missing.
fn or_one(v: Option<u32>) -> (r: u32)
    ensures
        r == one_or(v),
{
    match v {
        Some(v) => v,
        None => F32_ONE,
    }
}

/// The sun of a map: what the first entity of its class says.
pub fn find_sun(lumps: &Vec<EntityLump>) -> (r: Option<SunFields>)
    ensures
        r == sun_in(crate::entity::all_entities(lumps@)),
{
    let v: Vec<&Entity> = crate::entity::flatten_entities(lumps);
    let ghost all = crate::entity::lent(v@);
    let ghost holds = |e: Entity| crate::entity::class_of(e) == "light_environment"@;
    let mut i: usize = 0;
    while i < v.len()
        invariant
            i <= v@.len(),
            all == crate::entity::lent(v@),
            all == crate::entity::all_entities(lumps@),
            holds == (|e: Entity| crate::entity::class_of(e) == "light_environment"@),
            crate::entity::first_where(all, holds, 0) == crate::entity::first_where(
                all,
                holds,
                i as int,
            ),
        decreases v@.len() - i,
    {
        let e: &Entity = v[i];
        assert(all[i as int] == *e);
        let class: String = e.classname();
        if same(class.as_str(), "light_environment") {
            return Some(
                SunFields {
                    angles: e.angles,
                    color: e.get_vec3("color"),
                    brightness: or_one(e.get_plain_number("brightness")),
                    brightness_scale: or_one(e.get_plain_number("brightnessscale")),
                    skycolor: e.get_vec3("skycolor"),
                    skyintensity: or_one(e.get_float("skyintensity")),
                },
            );
        }
        i += 1;
    }
    None
}

/// The channel that holds the baked shadow of the sun: what the first entity of its class says, in
/// one of two ways, where that is 0, 1, 2 or 3.
pub open spec fn shadow_channel_of(v: Seq<Entity>) -> Option<i64> {
    match crate::entity::first_of_class(v, "light_environment"@) {
        None => None,
        Some(e) => match crate::entity::number_of(e, "bakedshadowindex"@) {
            Some(n) => crate::bits::rounded_to_small(n),
            None => match crate::entity::number_of(e, "bakelightindex"@) {
                Some(n) => crate::bits::rounded_to_small(n),
                None => None,
            },
        },
    }
}

/// The channel that holds the baked shadow of the sun; none where the map has no such shadow.
pub fn find_baked_shadow_channel(lumps: &Vec<EntityLump>) -> (r: Option<i64>)
    ensures
        r == shadow_channel_of(crate::entity::all_entities(lumps@)),
        r matches Some(c) ==> 0 <= c <= 3,
{
    let e: &Entity = match find_entity(lumps, "light_environment") {
        Some(e) => e,
        None => {
            return None;
        },
    };
    match e.get_number("bakedshadowindex") {
        Some(n) => round_to_small(n),
        None => match e.get_number("bakelightindex") {
            Some(n) => round_to_small(n),
            None => None,
        },
    }
}

} // verus!
