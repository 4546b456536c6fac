//! Entities: which of them are drawn, how they are tinted, and which skin they wear.
//!
//! A property holds what its value reads as in each of the ways that are asked for: as a text, a
//! truth value, a number and a vector.

use crate::bits::{f32_above, f64_place_of};
use crate::model::{MaterialGroup, Model};
use crate::table::Table;
use crate::text::{eq_ignore_ascii_case, same};
use vstd::prelude::*;

verus! {

/// How the value of a property is stored.
#[derive(Debug, Clone, Copy, PartialEq, Eq, Structural)]
pub enum ValueKind {
    Integer,
    Unsigned,
    Float,
    Text,
    Truth,
    Vector,
    Other,
}

/// One property of an entity.
#[derive(Debug, Clone)]
pub struct Property {
    pub key: String,
    pub kind: ValueKind,
    /// The value, where it is a text.
    pub text: Option<String>,
    /// The value as a truth value.
    pub flag: Option<bool>,
    /// The number that is stored, or that the text without the blanks around it reads as: the bits of
    /// a double.
    pub number: Option<u64>,
    /// The same as the bits of a single.
    pub single: Option<u32>,
    /// The value as a vector: the bits of three singles.
    pub vector: Option<[u32; 3]>,
}

/// An entity: its properties, and where it is.
#[derive(Debug, Clone)]
pub struct Entity {
    pub properties: Vec<Property>,
    /// As the bits of singles, like the two that follow.
    pub origin: [u32; 3],
    pub angles: [u32; 3],
    pub scales: [u32; 3],
}

/// A list of entities.
#[derive(Debug, Clone)]
pub struct EntityLump {
    pub name: String,
    pub child_lumps: Vec<String>,
    pub entities: Vec<Entity>,
}

/// The first property with a key, from `from` on.
pub open spec fn property_from(v: Seq<Property>, key: Seq<char>, from: int) -> Option<Property>
    decreases v.len() - from,
{
    if from < 0 || from >= v.len() {
        None
    } else if v[from].key@ == key {
        Some(v[from])
    } else {
        property_from(v, key, from + 1)
    }
}

/// A property of an entity.
pub open spec fn property_of(e: Entity, key: Seq<char>) -> Option<Property> {
    property_from(e.properties@, key, 0)
}

/// A property as a text.
pub open spec fn text_of(e: Entity, key: Seq<char>) -> Option<Seq<char>> {
    match property_of(e, key) {
        Some(p) => crate::text::opt_text(p.text),
        None => None,
    }
}

/// A property as a truth value.
pub open spec fn flag_of(e: Entity, key: Seq<char>) -> Option<bool> {
    match property_of(e, key) {
        Some(p) => p.flag,
        None => None,
    }
}

/// Whether values that are stored so read as numbers: truth values and vectors do not.
pub open spec fn is_numeric(kind: ValueKind) -> bool {
    match kind {
        ValueKind::Integer => true,
        ValueKind::Unsigned => true,
        ValueKind::Float => true,
        ValueKind::Text => true,
        ValueKind::Other => true,
        ValueKind::Truth => false,
        ValueKind::Vector => false,
    }
}

/// A property as a number.
pub open spec fn number_of(e: Entity, key: Seq<char>) -> Option<u64> {
    num_of(property_of(e, key))
}

/// What a property reads as, where it is there: a number, if its kind is numeric and it holds one.
pub open spec fn num_of(p: Option<Property>) -> Option<u64> {
    match p {
        Some(p) => if is_numeric(p.kind) {
            p.number
        } else {
            None
        },
        None => None,
    }
}

/// A property as a single.
pub open spec fn single_of(e: Entity, key: Seq<char>) -> Option<u32> {
    match property_of(e, key) {
        Some(p) => if is_numeric(p.kind) {
            p.single
        } else {
            None
        },
        None => None,
    }
}

/// Whether values that are stored so read as numbers.
fn reads_as_number(kind: ValueKind) -> (r: bool)
    ensures
        r == is_numeric(kind),
{
    match kind {
        ValueKind::Truth | ValueKind::Vector => false,
        _ => true,
    }
}

/// What a property reads as: a number, if it is there, its kind is numeric and it holds one.
pub fn entity_num(v: Option<&Property>) -> (r: Option<u64>)
    ensures
        r == num_of(
            match v {
                Some(p) => Some(*p),
                None => None,
            },
        ),
{
    match v {
        Some(p) => if reads_as_number(p.kind) {
            p.number
        } else {
            None
        },
        None => None,
    }
}

/// A property as a vector.
pub open spec fn vector_of(e: Entity, key: Seq<char>) -> Option<[u32; 3]> {
    match property_of(e, key) {
        Some(p) => p.vector,
        None => None,
    }
}

/// What a property that is stored as a float reads as.
pub open spec fn float_of(e: Entity, key: Seq<char>) -> Option<u32> {
    match property_of(e, key) {
        Some(p) => if p.kind == ValueKind::Float {
            p.single
        } else {
            None
        },
        None => None,
    }
}

/// What a property that is stored as a float or as an integer reads as.
pub open spec fn plain_number_of(e: Entity, key: Seq<char>) -> Option<u32> {
    match property_of(e, key) {
        Some(p) => if p.kind == ValueKind::Float || p.kind == ValueKind::Integer {
            p.single
        } else {
            None
        },
        None => None,
    }
}

/// The name by which other entities refer to an entity.
pub open spec fn target_of(e: Entity) -> Option<Seq<char>> {
    text_of(e, "targetname"@)
}

/// The class of an entity; empty where it has none.
pub open spec fn class_of(e: Entity) -> Seq<char> {
    match text_of(e, "classname"@) {
        Some(s) => s,
        None => Seq::empty(),
    }
}

/// Whether an entity is of a class.
pub open spec fn has_class(e: Entity, class: Seq<char>) -> bool {
    crate::text::same_ignoring_case(class_of(e), class)
}

impl Entity {
    /// An entity without properties at the origin.
    pub fn new(properties: Vec<Property>) -> (r: Entity)
        ensures
            r.properties == properties,
            r.origin@ == seq![0u32, 0u32, 0u32],
            r.angles@ == seq![0u32, 0u32, 0u32],
            r.scales@ == seq![0x3F80_0000u32, 0x3F80_0000u32, 0x3F80_0000u32],
    {
        let r: Entity = Entity {
            properties,
            origin: [0, 0, 0],
            angles: [0, 0, 0],
            scales: [0x3F80_0000, 0x3F80_0000, 0x3F80_0000],
        };
        assert(r.origin@ =~= seq![0u32, 0u32, 0u32]);
        assert(r.angles@ =~= seq![0u32, 0u32, 0u32]);
        assert(r.scales@ =~= seq![0x3F80_0000u32, 0x3F80_0000u32, 0x3F80_0000u32]);
        r
    }

    /// A property.
    pub fn get(&self, key: &str) -> (r: Option<&Property>)
        ensures
            match r {
                Some(p) => property_of(*self, key@) == Some(*p),
                None => property_of(*self, key@) is None,
            },
    {
        let mut i: usize = 0;
        while i < self.properties.len()
            invariant
                i <= self.properties@.len(),
                property_from(self.properties@, key@, 0) == property_from(
                    self.properties@,
                    key@,
                    i as int,
                ),
            decreases self.properties@.len() - i,
        {
            if same(self.properties[i].key.as_str(), key) {
                return Some(&self.properties[i]);
            }
            i += 1;
        }
        None
    }

    /// A property as a text.
    pub fn get_str(&self, key: &str) -> (r: Option<&String>)
        ensures
            match r {
                Some(s) => text_of(*self, key@) == Some(s@),
                None => text_of(*self, key@) is None,
            },
    {
        match self.get(key) {
            Some(p) => match &p.text {
                Some(s) => Some(s),
                None => None,
            },
            None => None,
        }
    }

    /// A property as a truth value.
    pub fn get_bool(&self, key: &str) -> (r: Option<bool>)
        ensures
            r == flag_of(*self, key@),
    {
        match self.get(key) {
            Some(p) => p.flag,
            None => None,
        }
    }

    /// A property as a number.
    pub fn get_number(&self, key: &str) -> (r: Option<u64>)
        ensures
            r == number_of(*self, key@),
    {
        entity_num(self.get(key))
    }

    /// A property as a single.
    pub fn get_single(&self, key: &str) -> (r: Option<u32>)
        ensures
            r == single_of(*self, key@),
    {
        match self.get(key) {
            Some(p) => if reads_as_number(p.kind) {
                p.single
            } else {
                None
            },
            None => None,
        }
    }

    /// A property as a vector.
    pub fn get_vec3(&self, key: &str) -> (r: Option<[u32; 3]>)
        ensures
            r == vector_of(*self, key@),
    {
        match self.get(key) {
            Some(p) => p.vector,
            None => None,
        }
    }

    /// A property that is stored as a float.
    pub fn get_float(&self, key: &str) -> (r: Option<u32>)
        ensures
            r == float_of(*self, key@),
    {
        match self.get(key) {
            Some(p) => if p.kind == ValueKind::Float {
                p.single
            } else {
                None
            },
            None => None,
        }
    }

    /// A property that is stored as a float or as an integer.
    pub fn get_plain_number(&self, key: &str) -> (r: Option<u32>)
        ensures
            r == plain_number_of(*self, key@),
    {
        match self.get(key) {
            Some(p) => if p.kind == ValueKind::Float || p.kind == ValueKind::Integer {
                p.single
            } else {
                None
            },
            None => None,
        }
    }

    /// The name by which other entities refer to the entity.
    pub fn targetname(&self) -> (r: Option<&String>)
        ensures
            match r {
                Some(s) => target_of(*self) == Some(s@),
                None => target_of(*self) is None,
            },
    {
        self.get_str("targetname")
    }

    /// Whether the entity is of a class, whatever the case of its letters.
    pub fn is_class(&self, class: &str) -> (r: bool)
        ensures
            r == has_class(*self, class@),
    {
        match self.get_str("classname") {
            Some(s) => eq_ignore_ascii_case(s.as_str(), class),
            None => {
                let s: String = String::new();
                assert(s@ =~= Seq::<char>::empty());
                eq_ignore_ascii_case(s.as_str(), class)
            },
        }
    }

    /// The class; empty where there is none.
    pub fn classname(&self) -> (r: String)
        ensures
            r@ == class_of(*self),
    {
        match self.get_str("classname") {
            Some(s) => s.clone(),
            None => {
                let s: String = String::new();
                assert(s@ =~= Seq::<char>::empty());
                s
            },
        }
    }
}

/// The bits of the double 10.
pub const F64_TEN: u64 = 0x4024_0000_0000_0000;

/// Whether an optional number is zero.
pub open spec fn is_zero(n: Option<u64>) -> bool {
    match n {
        Some(b) => crate::bits::f64_place(b) == 0,
        None => false,
    }
}

/// Whether a render mode draws nothing: by name, or by number.
pub open spec fn draws_nothing(e: Entity) -> bool {
    let named = match text_of(e, "rendermode"@) {
        Some(s) => crate::text::same_ignoring_case(s, "kRenderNone"@),
        None => false,
    };
    named || number_of(e, "rendermode"@) == Some(F64_TEN)
}

/// Whether an entity is drawn.
pub open spec fn is_drawn(e: Entity) -> bool {
    &&& flag_of(e, "startdisabled"@) != Some(true)
    &&& flag_of(e, "enabled"@) != Some(false)
    &&& !is_zero(number_of(e, "renderamt"@))
    &&& !draws_nothing(e)
}

/// Whether a render mode draws nothing.
pub fn rendermode_is_none(entity: &Entity) -> (r: bool)
    ensures
        r == draws_nothing(*entity),
{
    let by_name: bool = match entity.get_str("rendermode") {
        Some(s) => eq_ignore_ascii_case(s.as_str(), "kRenderNone"),
        None => false,
    };
    let by_number: bool = match entity.get_number("rendermode") {
        Some(b) => b == F64_TEN,
        None => false,
    };
    by_name || by_number
}

/// Whether an entity is drawn: not where it starts disabled, is not enabled, has an amount of zero
/// or a render mode that draws nothing.
pub fn should_render(entity: &Entity) -> (r: bool)
    ensures
        r == is_drawn(*entity),
{
    match entity.get_bool("startdisabled") {
        Some(b) => {
            if b {
                return false;
            }
        },
        None => {},
    }
    match entity.get_bool("enabled") {
        Some(b) => {
            if !b {
                return false;
            }
        },
        None => {},
    }
    match entity.get_number("renderamt") {
        Some(b) => {
            if f64_place_of(b) == 0 {
                return false;
            }
        },
        None => {},
    }
    !rendermode_is_none(entity)
}

/// The bits of the single 1.5: a component above it is one of 255.
pub const F32_BYTE_RANGE: u32 = 0x3FC0_0000;

/// The bits of the single 1.
pub const F32_UNIT: u32 = 0x3F80_0000;

/// The tint of an entity as it is written, and what is to be divided by 255.
#[derive(Debug, Clone, Copy)]
pub struct EntityTint {
    pub color: [u32; 3],
    pub color_is_bytes: bool,
    pub amount: u32,
    pub amount_is_bytes: bool,
}

/// Whether a component is above the range of a fraction.
pub open spec fn is_byte(bits: u32) -> bool {
    crate::bits::f32_exceeds(bits, F32_BYTE_RANGE)
}

/// Whether one of three components is above the range of a fraction.
pub open spec fn any_byte(c: Seq<u32>) -> bool {
    is_byte(c[0]) || is_byte(c[1]) || is_byte(c[2])
}

/// The colour of an entity; white where it has none.
pub open spec fn color_of(e: Entity) -> Seq<u32> {
    match vector_of(e, "rendercolor"@) {
        Some(v) => v@,
        None => seq![F32_UNIT, F32_UNIT, F32_UNIT],
    }
}

/// The opacity of an entity; full where it has none.
pub open spec fn amount_of(e: Entity) -> u32 {
    match single_of(e, "renderamt"@) {
        Some(f) => f,
        None => F32_UNIT,
    }
}

/// The tint of an entity.
pub fn entity_tint(entity: &Entity) -> (r: EntityTint)
    ensures
        r.color@ == color_of(*entity),
        r.color_is_bytes == any_byte(color_of(*entity)),
        r.amount == amount_of(*entity),
        r.amount_is_bytes == is_byte(amount_of(*entity)),
{
    let color: [u32; 3] = match entity.get_vec3("rendercolor") {
        Some(v) => v,
        None => {
            let white: [u32; 3] = [F32_UNIT, F32_UNIT, F32_UNIT];
            assert(white@ =~= seq![F32_UNIT, F32_UNIT, F32_UNIT]);
            white
        },
    };
    let amount: u32 = match entity.get_single("renderamt") {
        Some(f) => f,
        None => F32_UNIT,
    };
    EntityTint {
        color,
        color_is_bytes: f32_above(color[0], F32_BYTE_RANGE) || f32_above(color[1], F32_BYTE_RANGE)
            || f32_above(color[2], F32_BYTE_RANGE),
        amount,
        amount_is_bytes: f32_above(amount, F32_BYTE_RANGE),
    }
}

/// The skin of an entity; none where it wears the default one.
pub open spec fn skin_of(e: Entity) -> Option<Seq<char>> {
    match text_of(e, "skin"@) {
        Some(s) => if s == "0"@ || crate::text::same_ignoring_case(s, "default"@) {
            None
        } else {
            Some(s)
        },
        None => None,
    }
}

/// The skin of an entity.
pub fn skin_name(entity: &Entity) -> (r: Option<&String>)
    ensures
        match r {
            Some(s) => skin_of(*entity) == Some(s@),
            None => skin_of(*entity) is None,
        },
{
    match entity.get_str("skin") {
        Some(s) => {
            if same(s.as_str(), "0") || eq_ignore_ascii_case(s.as_str(), "default") {
                None
            } else {
                Some(s)
            }
        },
        None => None,
    }
}

/// The first group with a name, from `from` on.
pub open spec fn group_from(v: Seq<MaterialGroup>, name: Seq<char>, from: int) -> Option<
    MaterialGroup,
>
    decreases v.len() - from,
{
    if from < 0 || from >= v.len() {
        None
    } else if v[from].name@ == name {
        Some(v[from])
    } else {
        group_from(v, name, from + 1)
    }
}

/// Finds the first group with a name.
fn find_group<'a>(v: &'a Vec<MaterialGroup>, name: &str) -> (r: Option<&'a MaterialGroup>)
    ensures
        match r {
            Some(g) => group_from(v@, name@, 0) == Some(*g),
            None => group_from(v@, name@, 0) is None,
        },
{
    let mut i: usize = 0;
    while i < v.len()
        invariant
            i <= v@.len(),
            group_from(v@, name@, 0) == group_from(v@, name@, i as int),
        decreases v@.len() - i,
    {
        if same(v[i].name.as_str(), name) {
            return Some(&v[i]);
        }
        i += 1;
    }
    None
}

/// The materials of one group against those of another, place by place.
pub open spec fn matched(from: Seq<String>, to: Seq<String>, n: int) -> Map<Seq<char>, String>
    decreases n,
{
    if n <= 0 {
        Map::empty()
    } else if n - 1 < to.len() {
        matched(from, to, n - 1).insert(from[n - 1]@, to[n - 1])
    } else {
        matched(from, to, n - 1)
    }
}

/// What the materials of a model become under a skin: the material at each place of the default
/// group becomes the one at the same place of the skin's group. None where a group is missing.
pub open spec fn remap_of(groups: Seq<MaterialGroup>, skin: Seq<char>) -> Option<
    Map<Seq<char>, String>,
> {
    match (group_from(groups, "default"@, 0), group_from(groups, skin, 0)) {
        (Some(d), Some(s)) => Some(
            matched(d.materials@, s.materials@, d.materials@.len() as int),
        ),
        _ => None,
    }
}

/// What the materials of a model become under a skin.
pub fn skin_remap(model: &Model, skin: &str) -> (r: Option<Table<String>>)
    ensures
        match r {
            Some(t) => remap_of(model.material_groups@, skin@) == Some(t@),
            None => remap_of(model.material_groups@, skin@) is None,
        },
{
    let from: &MaterialGroup = match find_group(&model.material_groups, "default") {
        Some(g) => g,
        None => {
            return None;
        },
    };
    let to: &MaterialGroup = match find_group(&model.material_groups, skin) {
        Some(g) => g,
        None => {
            return None;
        },
    };
    let mut map: Table<String> = Table::new();
    let mut i: usize = 0;
    while i < from.materials.len()
        invariant
            i <= from.materials@.len(),
            map@ == matched(from.materials@, to.materials@, i as int),
        decreases from.materials@.len() - i,
    {
        if i < to.materials.len() {
            map.insert(from.materials[i].clone(), to.materials[i].clone());
        }
        i += 1;
    }
    Some(map)
}

/// A skin changes materials place by place: where no material stands twice in the default group,
/// the material at place `i` becomes the skin's material at place `i`, and not another.
pub proof fn skins_change_place_by_place(from: Seq<String>, to: Seq<String>, n: int, i: int)
    requires
        0 <= i < n <= from.len(),
        i < to.len(),
        forall|a: int, b: int| 0 <= a < b < from.len() ==> #[trigger] from[a]@ != #[trigger] from[b]@,
    ensures
        crate::table::named(matched(from, to, n), from[i]@) == Some(to[i]),
    decreases n,
{
    if i < n - 1 {
        skins_change_place_by_place(from, to, n - 1, i);
        assert(from[i]@ != from[n - 1]@);
    }
}

/// The entities of a list of lumps, one after the other.
pub open spec fn all_entities(lumps: Seq<EntityLump>) -> Seq<Entity>
    decreases lumps.len(),
{
    if lumps.len() == 0 {
        Seq::empty()
    } else {
        all_entities(lumps.drop_last()) + lumps.last().entities@
    }
}

/// Entities that are lent.
pub open spec fn lent(v: Seq<&Entity>) -> Seq<Entity> {
    Seq::new(v.len(), |i: int| *v[i])
}

/// The entities of a list of lumps, one after the other.
pub fn flatten_entities<'a>(lumps: &'a Vec<EntityLump>) -> (r: Vec<&'a Entity>)
    ensures
        lent(r@) == all_entities(lumps@),
{
    let mut out: Vec<&'a Entity> = Vec::new();
    assert(lent(out@) =~= all_entities(lumps@.take(0)));
    let mut i: usize = 0;
    while i < lumps.len()
        invariant
            i <= lumps@.len(),
            lent(out@) == all_entities(lumps@.take(i as int)),
        decreases lumps@.len() - i,
    {
        let list: &'a Vec<Entity> = &lumps[i].entities;
        let ghost start = lent(out@);
        assert(start + list@.take(0) =~= start);
        let mut k: usize = 0;
        while k < list.len()
            invariant
                k <= list@.len(),
                lent(out@) == start + list@.take(k as int),
            decreases list@.len() - k,
        {
            let e: &'a Entity = &list[k];
            proof {
                assert(lent(out@.push(e)) =~= lent(out@).push(*e));
                assert(start + list@.take(k + 1) =~= (start + list@.take(k as int)).push(
                    list@[k as int],
                ));
            }
            out.push(e);
            k += 1;
        }
        proof {
            assert(list@.take(k as int) =~= list@);
            assert(lumps@.take(i + 1).drop_last() =~= lumps@.take(i as int));
            assert(lumps@.take(i + 1).last() == lumps@[i as int]);
        }
        i += 1;
    }
    assert(lumps@.take(i as int) =~= lumps@);
    out
}

/// The first entity for which something holds, from `from` on.
pub open spec fn first_where(v: Seq<Entity>, holds: spec_fn(Entity) -> bool, from: int) -> Option<
    Entity,
>
    decreases v.len() - from,
{
    if from < 0 || from >= v.len() {
        None
    } else if holds(v[from]) {
        Some(v[from])
    } else {
        first_where(v, holds, from + 1)
    }
}

/// The first entity of a class.
pub open spec fn first_of_class(v: Seq<Entity>, class: Seq<char>) -> Option<Entity> {
    first_where(v, |e: Entity| has_class(e, class), 0)
}

/// What is lent, if anything.
pub open spec fn opt_entity(e: Option<&Entity>) -> Option<Entity> {
    match e {
        Some(e) => Some(*e),
        None => None,
    }
}

/// The first entity of a class, whatever the case of its letters.
pub fn find_entity<'a>(lumps: &'a Vec<EntityLump>, class: &str) -> (r: Option<&'a Entity>)
    ensures
        opt_entity(r) == first_of_class(all_entities(lumps@), class@),
{
    let v: Vec<&'a Entity> = flatten_entities(lumps);
    let ghost all = lent(v@);
    let ghost holds = |e: Entity| has_class(e, class@);
    let mut i: usize = 0;
    while i < v.len()
        invariant
            i <= v@.len(),
            all == lent(v@),
            all == all_entities(lumps@),
            holds == (|e: Entity| has_class(e, class@)),
            first_where(all, holds, 0) == first_where(all, holds, i as int),
        decreases v@.len() - i,
    {
        assert(all[i as int] == *v@[i as int]);
        if v[i].is_class(class) {
            return Some(v[i]);
        }
        i += 1;
    }
    None
}

/// The first entity with a name.
pub fn find_entity_by_targetname<'a>(lumps: &'a Vec<EntityLump>, name: &str) -> (r: Option<
    &'a Entity,
>)
    ensures
        opt_entity(r) == first_where(
            all_entities(lumps@),
            |e: Entity| target_of(e) == Some(name@),
            0,
        ),
{
    let v: Vec<&'a Entity> = flatten_entities(lumps);
    let ghost all = lent(v@);
    let ghost holds = |e: Entity| target_of(e) == Some(name@);
    let mut i: usize = 0;
    while i < v.len()
        invariant
            i <= v@.len(),
            all == lent(v@),
            all == all_entities(lumps@),
            holds == (|e: Entity| target_of(e) == Some(name@)),
            first_where(all, holds, 0) == first_where(all, holds, i as int),
        decreases v@.len() - i,
    {
        assert(all[i as int] == *v@[i as int]);
        let e: &'a Entity = v[i];
        match e.targetname() {
            Some(s) => {
                if same(s.as_str(), name) {
                    return Some(e);
                }
            },
            None => {},
        }
        i += 1;
    }
    None
}

} // verus!
