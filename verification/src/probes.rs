//! Light probe volumes: which volume an object is lit by, and which cells of the shared atlas may
//! be read for it.

use crate::bits::{f32_le, f32_total_place_of, f64_to_i64};
use crate::entity::{flatten_entities, Entity, EntityLump};
use crate::world::Transform;
use vstd::prelude::*;

verus! {

/// The class of a probe volume.
pub const VOLUME_CLASS: &'static str = "env_combined_light_probe_volume";

/// What an entity says of its probe volume, as the bits of singles.
#[derive(Debug, Clone, Copy)]
pub struct VolumeFields {
    pub handshake: i64,
    pub level: i64,
    pub box_mins: [u32; 3],
    pub box_maxs: [u32; 3],
    pub atlas_size: [u32; 3],
    pub atlas_offset: [u32; 3],
}

/// [`VolumeFields`] with sequences in place of arrays.
pub struct FieldsView {
    pub handshake: i64,
    pub level: i64,
    pub box_mins: Seq<u32>,
    pub box_maxs: Seq<u32>,
    pub atlas_size: Seq<u32>,
    pub atlas_offset: Seq<u32>,
}

impl View for VolumeFields {
    type V = FieldsView;

    open spec fn view(&self) -> FieldsView {
        FieldsView {
            handshake: self.handshake,
            level: self.level,
            box_mins: self.box_mins@,
            box_maxs: self.box_maxs@,
            atlas_size: self.atlas_size@,
            atlas_offset: self.atlas_offset@,
        }
    }
}

/// Three numbers under three keys; none where one is missing.
pub open spec fn three_of(e: Entity, x: Seq<char>, y: Seq<char>, z: Seq<char>) -> Option<Seq<u32>> {
    match (
        crate::entity::single_of(e, x),
        crate::entity::single_of(e, y),
        crate::entity::single_of(e, z),
    ) {
        (Some(a), Some(b), Some(c)) => Some(seq![a, b, c]),
        _ => None,
    }
}

/// Reads three numbers under three keys.
pub fn entity_num_vec3(e: &Entity, x: &str, y: &str, z: &str) -> (r: Option<[u32; 3]>)
    ensures
        crate::mesh::triple(r) == three_of(*e, x@, y@, z@),
{
    match (e.get_single(x), e.get_single(y), e.get_single(z)) {
        (Some(a), Some(b), Some(c)) => {
            let t: [u32; 3] = [a, b, c];
            assert(t@ =~= seq![a, b, c]);
            Some(t)
        },
        _ => None,
    }
}

/// A number under a key, cut to an integer; 0 where it is missing.
pub open spec fn integer_of(e: Entity, key: Seq<char>) -> int {
    match crate::entity::number_of(e, key) {
        Some(b) => crate::bits::f64_truncated(b),
        None => 0,
    }
}

/// Reads a number under a key, cut to an integer.
pub fn entity_integer(e: &Entity, key: &str) -> (r: i64)
    ensures
        r == integer_of(*e, key@),
{
    match e.get_number(key) {
        Some(b) => f64_to_i64(b),
        None => 0,
    }
}

/// What an entity says of its probe volume; none where it is of another class, or where a box or a
/// place in the atlas is missing.
pub open spec fn fields_of(e: Entity) -> Option<FieldsView> {
    if !crate::entity::has_class(e, VOLUME_CLASS@) {
        None
    } else {
        match (
            crate::entity::vector_of(e, "box_mins"@),
            crate::entity::vector_of(e, "box_maxs"@),
            three_of(
                e,
                "light_probe_size_x"@,
                "light_probe_size_y"@,
                "light_probe_size_z"@,
            ),
            three_of(
                e,
                "light_probe_atlas_x"@,
                "light_probe_atlas_y"@,
                "light_probe_atlas_z"@,
            ),
        ) {
            (Some(mins), Some(maxs), Some(atlas_size), Some(atlas_offset)) => Some(
                FieldsView {
                    handshake: integer_of(e, "handshake"@) as i64,
                    level: integer_of(e, "indoor_outdoor_level"@) as i64,
                    box_mins: mins@,
                    box_maxs: maxs@,
                    atlas_size,
                    atlas_offset,
                },
            ),
            _ => None,
        }
    }
}

/// Reads what an entity says of its probe volume. Its place in the world is for the caller to
/// compute.
pub fn parse_volume(e: &Entity) -> (r: Option<VolumeFields>)
    ensures
        crate::material::opt_view(r) == fields_of(*e),
{
    if !e.is_class(VOLUME_CLASS) {
        return None;
    }
    let size: Option<[u32; 3]> = entity_num_vec3(
        e,
        "light_probe_size_x",
        "light_probe_size_y",
        "light_probe_size_z",
    );
    let offset: Option<[u32; 3]> = entity_num_vec3(
        e,
        "light_probe_atlas_x",
        "light_probe_atlas_y",
        "light_probe_atlas_z",
    );
    match (e.get_vec3("box_mins"), e.get_vec3("box_maxs"), size, offset) {
        (Some(box_mins), Some(box_maxs), Some(atlas_size), Some(atlas_offset)) => Some(
            VolumeFields {
                handshake: entity_integer(e, "handshake"),
                level: entity_integer(e, "indoor_outdoor_level"),
                box_mins,
                box_maxs,
                atlas_size,
                atlas_offset,
            },
        ),
        _ => None,
    }
}

/// A probe volume in the world.
#[derive(Debug, Clone, Copy)]
pub struct ProbeVolume {
    pub fields: VolumeFields,
    /// From the world to the volume's own axes.
    pub world_to_local: Transform,
    /// The box in the world, as the bits of singles.
    pub world_aabb_min: [u32; 3],
    pub world_aabb_max: [u32; 3],
    /// The square of the diagonal of the volume's place in the atlas, as the bits of a single.
    pub footprint: u32,
}

/// Whether a volume goes before another: it is of a higher level, or of the same level with a
/// smaller place in the atlas.
pub open spec fn goes_before(a: ProbeVolume, b: ProbeVolume) -> bool {
    a.fields.level > b.fields.level || (a.fields.level == b.fields.level
        && crate::bits::f32_total_place(a.footprint) < crate::bits::f32_total_place(b.footprint))
}

/// Whether a volume goes before another.
fn is_before(a: &ProbeVolume, b: &ProbeVolume) -> (r: bool)
    ensures
        r == goes_before(*a, *b),
{
    a.fields.level > b.fields.level || (a.fields.level == b.fields.level && f32_total_place_of(
        a.footprint,
    ) < f32_total_place_of(b.footprint))
}

/// Where a volume is put into a list that is in order: before the first that it goes before.
pub open spec fn slot_for(v: Seq<ProbeVolume>, x: ProbeVolume, from: int) -> int
    decreases v.len() - from,
{
    if from < 0 || from >= v.len() {
        v.len() as int
    } else if goes_before(x, v[from]) {
        from
    } else {
        slot_for(v, x, from + 1)
    }
}

/// A list put in order. Of two volumes of which neither goes before the other, the one that came
/// first stays first.
pub open spec fn in_order(v: Seq<ProbeVolume>) -> Seq<ProbeVolume>
    decreases v.len(),
{
    if v.len() == 0 {
        Seq::empty()
    } else {
        let before = in_order(v.drop_last());
        before.insert(slot_for(before, v.last(), 0), v.last())
    }
}

/// Where a volume is put.
proof fn lemma_slot(v: Seq<ProbeVolume>, x: ProbeVolume, from: int)
    requires
        0 <= from <= v.len(),
    ensures
        from <= slot_for(v, x, from) <= v.len(),
        forall|i: int| from <= i < slot_for(v, x, from) ==> !goes_before(x, #[trigger] v[i]),
        slot_for(v, x, from) < v.len() ==> goes_before(x, v[slot_for(v, x, from)]),
    decreases v.len() - from,
{
    if from < v.len() && !goes_before(x, v[from]) {
        lemma_slot(v, x, from + 1);
    }
}

/// A list put in order holds the same volumes, and none stands after one that it goes before.
pub proof fn order_is_kept(v: Seq<ProbeVolume>)
    ensures
        in_order(v).len() == v.len(),
        in_order(v).to_multiset() == v.to_multiset(),
        forall|i: int, j: int|
            0 <= i < j < in_order(v).len() ==> !goes_before(
                #[trigger] in_order(v)[j],
                #[trigger] in_order(v)[i],
            ),
    decreases v.len(),
{
    broadcast use vstd::seq_lib::group_to_multiset_ensures;

    if v.len() > 0 {
        let before = in_order(v.drop_last());
        let x = v.last();
        let k = slot_for(before, x, 0);
        order_is_kept(v.drop_last());
        lemma_slot(before, x, 0);
        let after = before.insert(k, x);
        assert forall|i: int, j: int| 0 <= i < j < after.len() implies !goes_before(
            #[trigger] after[j],
            #[trigger] after[i],
        ) by {
            if j < k {
                assert(after[j] == before[j] && after[i] == before[i]);
            } else if j == k {
                assert(after[i] == before[i]);
            } else if i < k {
                assert(after[i] == before[i] && after[j] == before[j - 1]);
            } else if i == k {
                assert(after[j] == before[j - 1]);
                assert(goes_before(x, before[k]));
                if j - 1 > k {
                    assert(!goes_before(before[j - 1], before[k]));
                }
            } else {
                assert(after[i] == before[i - 1] && after[j] == before[j - 1]);
            }
        }
        assert(v =~= v.drop_last().push(x));
        assert(after.to_multiset() =~= before.to_multiset().insert(x)) by {
            before.to_multiset_ensures();
            after.to_multiset_ensures();
            assert(after.remove(k) =~= before);
        }
    } else {
        assert(in_order(v) =~= v);
    }
}

/// The entities that are probe volumes.
pub open spec fn volumes_among(v: Seq<Entity>) -> Seq<Entity> {
    v.filter(|e: Entity| crate::entity::has_class(e, VOLUME_CLASS@))
}

/// The entities of a map that are probe volumes, in order.
pub fn volume_entities<'a>(lumps: &'a Vec<EntityLump>) -> (r: Vec<&'a Entity>)
    ensures
        crate::entity::lent(r@) == volumes_among(crate::entity::all_entities(lumps@)),
{
    let all: Vec<&'a Entity> = flatten_entities(lumps);
    let ghost whole = crate::entity::lent(all@);
    let ghost is_volume = |e: Entity| crate::entity::has_class(e, VOLUME_CLASS@);
    let mut out: Vec<&'a Entity> = Vec::new();
    proof {
        reveal(Seq::filter);
        assert(crate::entity::lent(out@) =~= whole.take(0).filter(is_volume));
    }
    let mut i: usize = 0;
    while i < all.len()
        invariant
            i <= all@.len(),
            whole == crate::entity::lent(all@),
            is_volume == (|e: Entity| crate::entity::has_class(e, VOLUME_CLASS@)),
            crate::entity::lent(out@) == whole.take(i as int).filter(is_volume),
        decreases all@.len() - i,
    {
        let e: &'a Entity = all[i];
        proof {
            reveal(Seq::filter);
            let part = whole.take(i + 1);
            assert(part.drop_last() =~= whole.take(i as int));
            assert(part.last() == *e);
            assert(crate::entity::lent(out@.push(e)) =~= crate::entity::lent(out@).push(*e));
        }
        if e.is_class(VOLUME_CLASS) {
            out.push(e);
        }
        i += 1;
    }
    assert(whole.take(i as int) =~= whole);
    out
}

/// The volumes among candidates.
pub open spec fn present(v: Seq<Option<ProbeVolume>>) -> Seq<ProbeVolume>
    decreases v.len(),
{
    if v.len() == 0 {
        Seq::empty()
    } else {
        match v.last() {
            Some(x) => present(v.drop_last()).push(x),
            None => present(v.drop_last()),
        }
    }
}

/// Puts a volume into a list that is in order.
fn place(v: &mut Vec<ProbeVolume>, x: ProbeVolume)
    ensures
        final(v)@ == old(v)@.insert(slot_for(old(v)@, x, 0), x),
{
    let mut i: usize = 0;
    while i < v.len() && !is_before(&x, &v[i])
        invariant
            i <= v@.len(),
            v@ == old(v)@,
            slot_for(v@, x, 0) == slot_for(v@, x, i as int),
        decreases v@.len() - i,
    {
        i += 1;
    }
    v.insert(i, x);
}

/// The volumes of a map, in order, and how many were left out: `candidates` holds one for each
/// entity of the class, or none where the entity lacks something.
pub fn collect_volumes(candidates: &Vec<Option<ProbeVolume>>) -> (r: (Vec<ProbeVolume>, u32))
    requires
        candidates@.len() <= u32::MAX,
    ensures
        r.0@ == in_order(present(candidates@)),
        r.1 == candidates@.len() - present(candidates@).len(),
{
    let mut out: Vec<ProbeVolume> = Vec::new();
    let mut skipped: u32 = 0;
    let mut i: usize = 0;
    while i < candidates.len()
        invariant
            i <= candidates@.len() <= u32::MAX,
            out@ == in_order(present(candidates@.take(i as int))),
            skipped == i - present(candidates@.take(i as int)).len(),
            present(candidates@.take(i as int)).len() <= i,
        decreases candidates@.len() - i,
    {
        let ghost part = candidates@.take(i + 1);
        proof {
            assert(part.drop_last() =~= candidates@.take(i as int));
            assert(part.last() == candidates@[i as int]);
        }
        match candidates[i] {
            Some(x) => {
                proof {
                    let before = present(candidates@.take(i as int));
                    assert(before.push(x).drop_last() =~= before);
                }
                place(&mut out, x);
            },
            None => {
                skipped = skipped + 1;
            },
        }
        i += 1;
    }
    assert(candidates@.take(i as int) =~= candidates@);
    (out, skipped)
}

/// A text that is not empty.
pub open spec fn filled_text(e: Entity, key: Seq<char>) -> Option<Seq<char>> {
    match crate::entity::text_of(e, key) {
        Some(s) => if s.len() == 0 {
            None
        } else {
            Some(s)
        },
        None => None,
    }
}

/// The two atlas textures of an entity, where it is a volume that names both.
pub open spec fn atlas_of(e: Entity) -> Option<(Seq<char>, Seq<char>)> {
    if !crate::entity::has_class(e, VOLUME_CLASS@) {
        None
    } else {
        match (
            filled_text(e, "lightprobetexture"@),
            filled_text(e, "lightprobetexture_dlshd"@),
        ) {
            (Some(a), Some(b)) => Some((a, b)),
            _ => None,
        }
    }
}

/// The first two atlas textures among entities, from `from` on.
pub open spec fn atlas_from(v: Seq<Entity>, from: int) -> Option<(Seq<char>, Seq<char>)>
    decreases v.len() - from,
{
    if from < 0 || from >= v.len() {
        None
    } else {
        match atlas_of(v[from]) {
            Some(p) => Some(p),
            None => atlas_from(v, from + 1),
        }
    }
}

/// The first two atlas textures among lumps, from `from` on.
pub open spec fn atlas_in(v: Seq<EntityLump>, from: int) -> Option<(Seq<char>, Seq<char>)>
    decreases v.len() - from,
{
    if from < 0 || from >= v.len() {
        None
    } else {
        match atlas_from(v[from].entities@, 0) {
            Some(p) => Some(p),
            None => atlas_in(v, from + 1),
        }
    }
}

/// Two optional texts as plain values.
pub open spec fn opt_pair(p: Option<(String, String)>) -> Option<(Seq<char>, Seq<char>)> {
    match p {
        Some(p) => Some((p.0@, p.1@)),
        None => None,
    }
}

/// A text that is not empty.
fn read_filled<'a>(e: &'a Entity, key: &str) -> (r: Option<&'a String>)
    ensures
        match r {
            Some(s) => filled_text(*e, key@) == Some(s@),
            None => filled_text(*e, key@) is None,
        },
{
    match e.get_str(key) {
        Some(s) => {
            if s.as_str().unicode_len() == 0 {
                None
            } else {
                Some(s)
            }
        },
        None => None,
    }
}

/// The two atlas textures of an entity.
fn read_atlas(e: &Entity) -> (r: Option<(String, String)>)
    ensures
        opt_pair(r) == atlas_of(*e),
{
    if !e.is_class(VOLUME_CLASS) {
        return None;
    }
    match (read_filled(e, "lightprobetexture"), read_filled(e, "lightprobetexture_dlshd")) {
        (Some(a), Some(b)) => Some((a.clone(), b.clone())),
        _ => None,
    }
}

/// The atlas textures that the volumes of a map share: those of the first that names both.
pub fn atlas_texture_paths(lumps: &Vec<EntityLump>) -> (r: Option<(String, String)>)
    ensures
        opt_pair(r) == atlas_in(lumps@, 0),
{
    let mut i: usize = 0;
    while i < lumps.len()
        invariant
            i <= lumps@.len(),
            atlas_in(lumps@, 0) == atlas_in(lumps@, i as int),
        decreases lumps@.len() - i,
    {
        let entities: &Vec<Entity> = &lumps[i].entities;
        let mut k: usize = 0;
        while k < entities.len()
            invariant
                k <= entities@.len(),
                i < lumps@.len(),
                entities == lumps@[i as int].entities,
                atlas_in(lumps@, 0) == atlas_in(lumps@, i as int),
                atlas_from(entities@, 0) == atlas_from(entities@, k as int),
            decreases entities@.len() - k,
        {
            match read_atlas(&entities[k]) {
                Some(p) => {
                    return Some(p);
                },
                None => {},
            }
            k += 1;
        }
        i += 1;
    }
    None
}

/// Whether a box holds a point, both as the bits of singles.
pub open spec fn holds_point(v: ProbeVolume, p: Seq<u32>) -> bool {
    forall|c: int|
        0 <= c < 3 ==> #[trigger] crate::bits::f32_at_most(v.world_aabb_min@[c], p[c])
            && crate::bits::f32_at_most(p[c], v.world_aabb_max@[c])
}

/// The first volume with a key, from `from` on.
pub open spec fn keyed_from(v: Seq<ProbeVolume>, handshake: i64, from: int) -> Option<int>
    decreases v.len() - from,
{
    if from < 0 || from >= v.len() {
        None
    } else if v[from].fields.handshake == handshake {
        Some(from)
    } else {
        keyed_from(v, handshake, from + 1)
    }
}

/// The first volume that holds a point, from `from` on.
pub open spec fn holding_from(v: Seq<ProbeVolume>, p: Seq<u32>, from: int) -> Option<int>
    decreases v.len() - from,
{
    if from < 0 || from >= v.len() {
        None
    } else if holds_point(v[from], p) {
        Some(from)
    } else {
        holding_from(v, p, from + 1)
    }
}

/// The volume that an object is lit by: the one that its key names, else the first that holds the
/// point, else the last.
pub open spec fn bound_to(v: Seq<ProbeVolume>, handshake: i64, p: Seq<u32>) -> Option<int> {
    if handshake != 0 && keyed_from(v, handshake, 0) is Some {
        keyed_from(v, handshake, 0)
    } else {
        match holding_from(v, p, 0) {
            Some(i) => Some(i),
            None => if v.len() > 0 {
                Some(v.len() - 1)
            } else {
                None
            },
        }
    }
}

impl ProbeVolume {
    /// Whether the box holds a point.
    pub fn contains_world_point(&self, p: &[u32; 3]) -> (r: bool)
        ensures
            r == holds_point(*self, p@),
    {
        let mut c: usize = 0;
        while c < 3
            invariant
                c <= 3,
                forall|k: int|
                    0 <= k < c ==> #[trigger] crate::bits::f32_at_most(
                        self.world_aabb_min@[k],
                        p@[k],
                    ) && crate::bits::f32_at_most(p@[k], self.world_aabb_max@[k]),
            decreases 3 - c,
        {
            if !(f32_le(self.world_aabb_min[c], p[c]) && f32_le(p[c], self.world_aabb_max[c])) {
                assert(!(crate::bits::f32_at_most(self.world_aabb_min@[c as int], p@[c as int])
                    && crate::bits::f32_at_most(p@[c as int], self.world_aabb_max@[c as int])));
                return false;
            }
            c += 1;
        }
        true
    }
}

/// The volume that an object is lit by.
pub fn bind_volume<'a>(
    volumes: &'a Vec<ProbeVolume>,
    handshake: i64,
    fallback_point: &[u32; 3],
) -> (r: Option<&'a ProbeVolume>)
    ensures
        match r {
            Some(v) => bound_to(volumes@, handshake, fallback_point@) matches Some(i)
                && volumes@[i] == *v,
            None => bound_to(volumes@, handshake, fallback_point@) is None,
        },
{
    let mut i: usize = 0;
    if handshake != 0 {
        while i < volumes.len()
            invariant
                i <= volumes@.len(),
                handshake != 0,
                keyed_from(volumes@, handshake, 0) == keyed_from(volumes@, handshake, i as int),
            decreases volumes@.len() - i,
        {
            if volumes[i].fields.handshake == handshake {
                return Some(&volumes[i]);
            }
            i += 1;
        }
    }
    let mut k: usize = 0;
    while k < volumes.len()
        invariant
            k <= volumes@.len(),
            !(handshake != 0 && keyed_from(volumes@, handshake, 0) is Some),
            holding_from(volumes@, fallback_point@, 0) == holding_from(
                volumes@,
                fallback_point@,
                k as int,
            ),
        decreases volumes@.len() - k,
    {
        if volumes[k].contains_world_point(fallback_point) {
            return Some(&volumes[k]);
        }
        k += 1;
    }
    if volumes.len() > 0 {
        Some(&volumes[volumes.len() - 1])
    } else {
        None
    }
}

/// A key that names a volume wins over every box. Without one the volume that is bound holds the
/// point and goes before every other that holds it, or none holds it and the last is bound.
pub proof fn binding_goes_by_key_and_order(
    candidates: Seq<Option<ProbeVolume>>,
    handshake: i64,
    p: Seq<u32>,
)
    requires
        present(candidates).len() > 0,
    ensures
        ({
            let v = in_order(present(candidates));
            let bound = bound_to(v, handshake, p);
            &&& bound is Some
            &&& 0 <= bound->Some_0 < v.len()
            &&& (handshake != 0 && exists|i: int|
                0 <= i < v.len() && (#[trigger] v[i]).fields.handshake == handshake)
                ==> v[bound->Some_0].fields.handshake == handshake
            &&& (handshake == 0 || forall|i: int|
                0 <= i < v.len() ==> (#[trigger] v[i]).fields.handshake != handshake) ==> {
                ||| holds_point(v[bound->Some_0], p) && forall|k: int|
                    0 <= k < v.len() && holds_point(#[trigger] v[k], p) ==> !goes_before(
                        v[k],
                        v[bound->Some_0],
                    )
                ||| bound->Some_0 == v.len() - 1 && forall|k: int|
                    0 <= k < v.len() ==> !holds_point(#[trigger] v[k], p)
            }
        }),
{
    let v = in_order(present(candidates));
    order_is_kept(present(candidates));
    lemma_keyed(v, handshake, 0);
    lemma_holding(v, p, 0);
    let bound = bound_to(v, handshake, p);
    assert forall|k: int| 0 <= k < v.len() && holds_point(#[trigger] v[k], p) && holding_from(
        v,
        p,
        0,
    ) is Some implies !goes_before(v[k], v[holding_from(v, p, 0)->Some_0]) by {
        let i = holding_from(v, p, 0)->Some_0;
        if k == i {
        } else if k < i {
            assert(!holds_point(v[k], p));
        } else {
            assert(!goes_before(v[k], v[i]));
        }
    }
}

/// What the search by key finds.
proof fn lemma_keyed(v: Seq<ProbeVolume>, handshake: i64, from: int)
    requires
        0 <= from,
    ensures
        match keyed_from(v, handshake, from) {
            Some(i) => from <= i < v.len() && v[i].fields.handshake == handshake,
            None => forall|i: int|
                from <= i < v.len() ==> (#[trigger] v[i]).fields.handshake != handshake,
        },
    decreases v.len() - from,
{
    if from < v.len() && v[from].fields.handshake != handshake {
        lemma_keyed(v, handshake, from + 1);
    }
}

/// What the search by point finds.
proof fn lemma_holding(v: Seq<ProbeVolume>, p: Seq<u32>, from: int)
    requires
        0 <= from,
    ensures
        match holding_from(v, p, from) {
            Some(i) => {
                &&& from <= i < v.len() && holds_point(v[i], p)
                &&& forall|k: int| from <= k < i ==> !holds_point(#[trigger] v[k], p)
            },
            None => forall|k: int| from <= k < v.len() ==> !holds_point(#[trigger] v[k], p),
        },
    decreases v.len() - from,
{
    if from < v.len() && !holds_point(v[from], p) {
        lemma_holding(v, p, from + 1);
    }
}

/// An integer held to a range.
pub open spec fn held(v: int, lo: int, hi: int) -> int {
    if v < lo {
        lo
    } else if v > hi {
        hi
    } else {
        v
    }
}

/// The two cells that a coordinate falls between, by its whole part.
pub open spec fn cell_pair(whole: int, lo: int, hi: int) -> (int, int) {
    if hi <= lo {
        (lo, lo)
    } else {
        let first = held(whole, lo, hi);
        (
            first,
            if first + 1 > hi {
                hi
            } else {
                first + 1
            },
        )
    }
}

/// The two cells that a coordinate falls between, held to the cells from `lo` to `hi`. `whole` is
/// the greatest integer that is not above the coordinate.
pub fn clamp_pair(whole: i64, lo: u32, hi: u32) -> (r: (u32, u32))
    ensures
        (r.0 as int, r.1 as int) == cell_pair(whole as int, lo as int, hi as int),
{
    if hi <= lo {
        return (lo, lo);
    }
    let first: u32 = if whole < lo as i64 {
        lo
    } else if whole > hi as i64 {
        hi
    } else {
        whole as u32
    };
    let second: u32 = if first >= hi {
        hi
    } else {
        first + 1
    };
    (first, second)
}

/// Filtering stays inside the volume: both cells lie in its range, so no cell of a neighbour is
/// read, whatever the coordinate.
pub proof fn cells_stay_inside(whole: int, lo: int, hi: int)
    requires
        lo <= hi,
    ensures
        lo <= cell_pair(whole, lo, hi).0 <= cell_pair(whole, lo, hi).1 <= hi,
        cell_pair(whole, lo, hi).1 <= cell_pair(whole, lo, hi).0 + 1,
{
}

/// The last cell of a volume, held to the atlas.
pub open spec fn last_cell(hi: int, size: int) -> int {
    let last = if size > 0 {
        size - 1
    } else {
        0
    };
    if hi < last {
        hi
    } else {
        last
    }
}

/// The last cell of a volume, held to the atlas.
pub fn cap_to_atlas(hi: u32, size: u32) -> (r: u32)
    ensures
        r == last_cell(hi as int, size as int),
{
    let last: u32 = if size > 0 {
        size - 1
    } else {
        0
    };
    if hi < last {
        hi
    } else {
        last
    }
}

/// The first slice of a face of the ambient cube: the positive faces of the three axes, then the
/// negative ones.
pub fn face_slice(axis: u32, positive: bool, block_depth: u32) -> (r: u32)
    requires
        axis < 3,
        block_depth <= u32::MAX / 6,
    ensures
        r == (if positive {
            axis as int
        } else {
            axis + 3
        }) * block_depth,
        r + block_depth <= 6 * block_depth,
{
    let face: u32 = if positive {
        axis
    } else {
        axis + 3
    };
    assert(face * block_depth <= 5 * block_depth) by (nonlinear_arith)
        requires
            face <= 5,
    ;
    face * block_depth
}

/// The channels of a sun shadow: the one that is asked for, or the last.
pub fn shadow_channel_index(channel: usize) -> (r: usize)
    ensures
        r == (if channel > 3 {
            3
        } else {
            channel
        }),
{
    if channel > 3 {
        3
    } else {
        channel
    }
}

/// How many decoded slices are kept.
pub const SLICE_CACHE_CAP: usize = 256;

/// The slices that are kept, the one that was used longest ago first.
#[derive(Debug)]
pub struct SliceOrder {
    pub order: Vec<u32>,
}

/// A sequence without an item.
pub open spec fn without(s: Seq<u32>, z: u32) -> Seq<u32>
    decreases s.len(),
{
    if s.len() == 0 {
        Seq::empty()
    } else if s.last() == z {
        without(s.drop_last(), z)
    } else {
        without(s.drop_last(), z).push(s.last())
    }
}

/// The slices that are kept after one was used.
pub open spec fn after_use(s: Seq<u32>, z: u32) -> Seq<u32> {
    let all = without(s, z).push(z);
    if all.len() > SLICE_CACHE_CAP {
        all.skip(all.len() - SLICE_CACHE_CAP)
    } else {
        all
    }
}

/// The slices that are dropped when one is used.
pub open spec fn dropped_by_use(s: Seq<u32>, z: u32) -> Seq<u32> {
    let all = without(s, z).push(z);
    if all.len() > SLICE_CACHE_CAP {
        all.take(all.len() - SLICE_CACHE_CAP)
    } else {
        Seq::empty()
    }
}

/// Whether no item stands twice.
pub open spec fn distinct(s: Seq<u32>) -> bool {
    forall|i: int, j: int| 0 <= i < j < s.len() ==> #[trigger] s[i] != #[trigger] s[j]
}

impl SliceOrder {
    /// Nothing is kept.
    pub fn new() -> (r: SliceOrder)
        ensures
            r.order@ == Seq::<u32>::empty(),
    {
        SliceOrder { order: Vec::new() }
    }

    /// Notes that a slice was used, and returns those that are to be dropped.
    pub fn touch(&mut self, z: u32) -> (r: Vec<u32>)
        ensures
            final(self).order@ == after_use(old(self).order@, z),
            r@ == dropped_by_use(old(self).order@, z),
    {
        let ghost start = self.order@;
        let mut all: Vec<u32> = Vec::new();
        let mut i: usize = 0;
        while i < self.order.len()
            invariant
                i <= self.order@.len(),
                self.order@ == start,
                all@ == without(start.take(i as int), z),
            decreases self.order@.len() - i,
        {
            proof {
                assert(start.take(i + 1).drop_last() =~= start.take(i as int));
                assert(start.take(i + 1).last() == start[i as int]);
            }
            if self.order[i] != z {
                all.push(self.order[i]);
            }
            i += 1;
        }
        assert(start.take(i as int) =~= start);
        all.push(z);
        let extra: usize = if all.len() > SLICE_CACHE_CAP {
            all.len() - SLICE_CACHE_CAP
        } else {
            0
        };
        let mut gone: Vec<u32> = Vec::new();
        let mut kept: Vec<u32> = Vec::new();
        let mut k: usize = 0;
        while k < all.len()
            invariant
                k <= all@.len(),
                extra <= all@.len(),
                gone@ =~= all@.take(if k <= extra {
                    k as int
                } else {
                    extra as int
                }),
                kept@ =~= all@.subrange(extra as int, if k <= extra {
                    extra as int
                } else {
                    k as int
                }),
            decreases all@.len() - k,
        {
            if k < extra {
                gone.push(all[k]);
            } else {
                kept.push(all[k]);
            }
            k += 1;
        }
        self.order = kept;
        assert(self.order@ =~= after_use(start, z));
        assert(gone@ =~= dropped_by_use(start, z));
        gone
    }
}

/// What remains without an item.
proof fn lemma_without(s: Seq<u32>, z: u32)
    requires
        distinct(s),
    ensures
        distinct(without(s, z)),
        without(s, z).len() <= s.len(),
        forall|i: int| 0 <= i < without(s, z).len() ==> #[trigger] without(s, z)[i] != z,
        forall|i: int| 0 <= i < without(s, z).len() ==> s.contains(#[trigger] without(s, z)[i]),
    decreases s.len(),
{
    if s.len() > 0 {
        let before = s.drop_last();
        assert(distinct(before)) by {
            assert forall|i: int, j: int| 0 <= i < j < before.len() implies #[trigger] before[i]
                != #[trigger] before[j] by {
                assert(s[i] != s[j]);
            }
        }
        lemma_without(before, z);
        let w = without(before, z);
        assert forall|i: int| 0 <= i < w.len() implies s.contains(#[trigger] w[i]) && w[i]
            != s.last() by {
            assert(before.contains(w[i]));
            let k = choose|k: int| 0 <= k < before.len() && before[k] == w[i];
            assert(s[k] == w[i]);
            assert(s[k] != s[s.len() - 1]);
        }
        if s.last() != z {
            assert(s[s.len() - 1] == s.last());
        }
    }
}

/// The cache is bounded and keeps what was just used: never more than the cap are kept, none of
/// them twice, and the slice that was used is the last of them.
pub proof fn cache_is_bounded(s: Seq<u32>, z: u32)
    requires
        distinct(s),
    ensures
        after_use(s, z).len() <= SLICE_CACHE_CAP,
        distinct(after_use(s, z)),
        after_use(s, z).len() > 0 && after_use(s, z).last() == z,
        !dropped_by_use(s, z).contains(z),
        dropped_by_use(s, z) + after_use(s, z) == without(s, z).push(z),
{
    lemma_without(s, z);
    let all = without(s, z).push(z);
    assert(dropped_by_use(s, z) + after_use(s, z) =~= all);
}

/// Where the values of a cell start in a decoded slice; none where the slice does not hold them.
pub open spec fn cell_start(len: int, x: int, y: int, width: int, channels: int) -> Option<int> {
    let start = (y * width + x) * channels;
    if start + channels <= len {
        Some(start)
    } else {
        None
    }
}

/// Where the values of a cell start in a decoded slice.
pub fn texel_start(len: usize, x: u32, y: u32, width: u32, channels: usize) -> (r: Option<usize>)
    ensures
        match r {
            Some(s) => cell_start(len as int, x as int, y as int, width as int, channels as int)
                == Some(s as int),
            None => cell_start(len as int, x as int, y as int, width as int, channels as int)
                is None,
        },
{
    assert(y * width <= 0xFFFF_FFFE_0000_0001) by (nonlinear_arith)
        requires
            y <= 0xFFFF_FFFF,
            width <= 0xFFFF_FFFF,
    ;
    assert(y * width >= 0) by (nonlinear_arith);
    let cell: u128 = (y as u64 * width as u64) as u128 + x as u128;
    assert(cell * channels <= 0x1_0000_0000_0000_0000 * 0xFFFF_FFFF_FFFF_FFFF) by (nonlinear_arith)
        requires
            cell <= 0x1_0000_0000_0000_0000,
            channels <= 0xFFFF_FFFF_FFFF_FFFF,
    ;
    assert(cell * channels >= 0) by (nonlinear_arith);
    let start: u128 = cell * (channels as u128);
    if start + channels as u128 <= len as u128 {
        Some(start as usize)
    } else {
        None
    }
}

/// The first `channels` of each cell of four.
pub open spec fn first_channels(rgba: Seq<u32>, channels: int, n: int) -> Seq<u32>
    decreases n,
{
    if n <= 0 {
        Seq::empty()
    } else {
        first_channels(rgba, channels, n - 1) + rgba.subrange(4 * (n - 1), 4 * (n - 1) + channels)
    }
}

/// The channels of a slice that are kept: all of them, or the first of each cell. What is left
/// over after the last whole cell is dropped.
pub fn keep_channels(rgba: Vec<u32>, channels: usize) -> (r: Vec<u32>)
    ensures
        channels >= 4 ==> r@ == rgba@,
        channels < 4 ==> r@ == first_channels(rgba@, channels as int, rgba@.len() as int / 4),
{
    if channels >= 4 {
        return rgba;
    }
    let cells: usize = rgba.len() / 4;
    let mut out: Vec<u32> = Vec::new();
    let mut i: usize = 0;
    while i < cells
        invariant
            i <= cells,
            cells == rgba@.len() / 4,
            channels < 4,
            rgba.len() <= usize::MAX,
            out@ == first_channels(rgba@, channels as int, i as int),
        decreases cells - i,
    {
        let ghost before = out@;
        let mut c: usize = 0;
        assert(out@ =~= before + rgba@.subrange(4 * i, 4 * i));
        while c < channels
            invariant
                c <= channels < 4,
                i < cells,
                cells == rgba@.len() / 4,
                out@ == before + rgba@.subrange(4 * i, 4 * i + c),
            decreases channels - c,
        {
            assert(4 * i + c < rgba.len());
            out.push(rgba[4 * i + c]);
            c += 1;
            assert(out@ =~= before + rgba@.subrange(4 * i, 4 * i + c));
        }
        i += 1;
    }
    out
}

} // verus!
