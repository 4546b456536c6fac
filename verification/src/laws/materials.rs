//! What decoded materials hold, in terms of the lists of the trees that they were decoded from, and
//! what a material amounts to, in terms of its parameters.

use crate::kv::Value;
use crate::material::{AlphaMode, MetalnessView, RawView, Vector2, Vector3, Vector4};
use vstd::prelude::*;

verus! {

/// Whether an entry names a value that can be read.
pub open spec fn names<T>(
    entry: Value,
    value_key: Seq<char>,
    read: spec_fn(Value) -> Option<T>,
    name: Seq<char>,
    x: T,
) -> bool {
    &&& crate::kv::string_at(entry, "m_name"@) matches Some(s) && s@ == name
    &&& crate::kv::child(entry, value_key) matches Some(v) && read(v) == Some(x)
}

/// Whether no entry from the `start`th on gives the name a value that can be read.
pub open spec fn named_no_more<T>(
    items: Seq<Value>,
    start: int,
    value_key: Seq<char>,
    read: spec_fn(Value) -> Option<T>,
    name: Seq<char>,
) -> bool {
    forall|j: int, x: T|
        start <= j < items.len() ==> !#[trigger] names(items[j], value_key, read, name, x)
}

/// A name has the value of the last entry that names it.
pub proof fn the_last_entry_of_a_name_counts<T>(
    items: Seq<Value>,
    value_key: Seq<char>,
    read: spec_fn(Value) -> Option<T>,
    name: Seq<char>,
    i: int,
    x: T,
)
    requires
        0 <= i < items.len(),
        names(items[i], value_key, read, name, x),
        named_no_more(items, i + 1, value_key, read, name),
    ensures
        crate::material::named_values(items, value_key, read).contains_key(name),
        crate::material::named_values(items, value_key, read)[name] == x,
    decreases items.len(),
{
    let last = items.len() - 1;
    let front = items.drop_last();
    if i < last {
        assert forall|j: int, y: T| i + 1 <= j < front.len() implies !#[trigger] names(
            front[j],
            value_key,
            read,
            name,
            y,
        ) by {
            assert(!names(items[j], value_key, read, name, y));
        }
        the_last_entry_of_a_name_counts(front, value_key, read, name, i, x);
        lemma_unnamed(items[last], value_key, read, name, items, last);
    }
}

/// An entry after which nothing names `name`, and which does not either, says nothing of it.
proof fn lemma_unnamed<T>(
    entry: Value,
    value_key: Seq<char>,
    read: spec_fn(Value) -> Option<T>,
    name: Seq<char>,
    items: Seq<Value>,
    j: int,
)
    requires
        0 <= j < items.len(),
        entry == items[j],
        named_no_more(items, j, value_key, read, name),
    ensures
        (crate::kv::string_at(entry, "m_name"@) matches Some(s) && s@ == name) ==> (crate::kv::child(
            entry,
            value_key,
        ) is None || read(crate::kv::child(entry, value_key)->Some_0) is None),
{
    if (crate::kv::string_at(entry, "m_name"@) matches Some(s) && s@ == name) && crate::kv::child(
        entry,
        value_key,
    ) is Some && read(crate::kv::child(entry, value_key)->Some_0) is Some {
        let x = read(crate::kv::child(entry, value_key)->Some_0)->Some_0;
        assert(!names(items[j], value_key, read, name, x));
    }
}

/// A name that no entry names has no value.
pub proof fn a_name_without_an_entry_has_no_value<T>(
    items: Seq<Value>,
    value_key: Seq<char>,
    read: spec_fn(Value) -> Option<T>,
    name: Seq<char>,
)
    requires
        named_no_more(items, 0, value_key, read, name),
    ensures
        !crate::material::named_values(items, value_key, read).contains_key(name),
    decreases items.len(),
{
    if items.len() > 0 {
        let last = items.len() - 1;
        let front = items.drop_last();
        assert forall|j: int, y: T| 0 <= j < front.len() implies !#[trigger] names(
            front[j],
            value_key,
            read,
            name,
            y,
        ) by {
            assert(!names(items[j], value_key, read, name, y));
        }
        a_name_without_an_entry_has_no_value(front, value_key, read, name);
        lemma_unnamed(items[last], value_key, read, name, items, last);
    }
}

/// A vector is its numbers in the order of the list: nought where one of the first three is no number,
/// and 1 where the fourth is none. A list with fewer than three items is no vector.
pub proof fn a_vector_is_read_in_order(v: Value)
    ensures
        match crate::material::vector4_of(v) {
            Some(r) => {
                &&& v matches Value::Array(a) && a@.len() >= 3
                &&& r.x == crate::laws::worlds::or(crate::laws::worlds::number_in(v, 0), 0)
                &&& r.y == crate::laws::worlds::or(crate::laws::worlds::number_in(v, 1), 0)
                &&& r.z == crate::laws::worlds::or(crate::laws::worlds::number_in(v, 2), 0)
                &&& r.w == crate::laws::worlds::or(
                    crate::laws::worlds::number_in(v, 3),
                    0x3F80_0000,
                )
            },
            None => !(v matches Value::Array(a) && a@.len() >= 3),
        },
{
}

/// Whether an entry gives a name its vector: it has the name, and its value is a list of the vector's
/// numbers in order.
pub open spec fn gives_vector(entry: Value, name: Seq<char>, x: Vector4) -> bool {
    &&& crate::kv::string_at(entry, "m_name"@) matches Some(s) && s@ == name
    &&& crate::kv::child(entry, "m_value"@) matches Some(v) && {
        &&& v matches Value::Array(a) && a@.len() >= 3
        &&& x.x == crate::laws::worlds::or(crate::laws::worlds::number_in(v, 0), 0)
        &&& x.y == crate::laws::worlds::or(crate::laws::worlds::number_in(v, 1), 0)
        &&& x.z == crate::laws::worlds::or(crate::laws::worlds::number_in(v, 2), 0)
        &&& x.w == crate::laws::worlds::or(crate::laws::worlds::number_in(v, 3), 0x3F80_0000)
    }
}

/// A material has under a name the vector of the last entry of the list of vectors that gives the name
/// one, and none where no entry does.
pub proof fn a_material_has_the_vectors_of_its_list(
    root: Value,
    red2: crate::material::Red2View,
    name: Seq<char>,
    i: int,
    x: Vector4,
)
    ensures
        ({
            let m = crate::material::material_of(root, red2);
            let items = crate::model::list_at(root, "m_vectorParams"@);
            &&& 0 <= i < items.len() && gives_vector(items[i], name, x) && (forall|j: int, y: Vector4|
                i < j < items.len() ==> !#[trigger] gives_vector(items[j], name, y)) ==> crate::table::named(
                m.vector_params,
                name,
            ) == Some(x)
            &&& (forall|j: int, y: Vector4|
                0 <= j < items.len() ==> !#[trigger] gives_vector(items[j], name, y)) ==> crate::table::named(
                m.vector_params,
                name,
            ) is None
        }),
{
    let items = crate::model::list_at(root, "m_vectorParams"@);
    let read = |v: Value| crate::material::vector4_of(v);
    assert forall|e: Value, y: Vector4| #[trigger] gives_vector(e, name, y) == names(
        e,
        "m_value"@,
        read,
        name,
        y,
    ) by {
        if crate::kv::child(e, "m_value"@) is Some {
            a_vector_is_read_in_order(crate::kv::child(e, "m_value"@)->Some_0);
        }
    }
    if 0 <= i < items.len() && gives_vector(items[i], name, x) && (forall|j: int, y: Vector4|
        i < j < items.len() ==> !#[trigger] gives_vector(items[j], name, y)) {
        assert forall|j: int, y: Vector4| i + 1 <= j < items.len() implies !#[trigger] names(
            items[j],
            "m_value"@,
            read,
            name,
            y,
        ) by {
            assert(!gives_vector(items[j], name, y));
        }
        the_last_entry_of_a_name_counts(items, "m_value"@, read, name, i, x);
    }
    if forall|j: int, y: Vector4|
        0 <= j < items.len() ==> !#[trigger] gives_vector(items[j], name, y) {
        assert forall|j: int, y: Vector4| 0 <= j < items.len() implies !#[trigger] names(
            items[j],
            "m_value"@,
            read,
            name,
            y,
        ) by {
            assert(!gives_vector(items[j], name, y));
        }
        a_name_without_an_entry_has_no_value(items, "m_value"@, read, name);
    }
}

/// Whether an entry gives a name its integer.
pub open spec fn gives_int(entry: Value, name: Seq<char>, x: i64) -> bool {
    &&& crate::kv::string_at(entry, "m_name"@) matches Some(s) && s@ == name
    &&& crate::kv::child(entry, "m_nValue"@) matches Some(v) && crate::kv::signed_of(v) == Some(x)
}

/// The same of its integers.
pub proof fn a_material_has_the_integers_of_its_list(
    root: Value,
    red2: crate::material::Red2View,
    name: Seq<char>,
    i: int,
    x: i64,
)
    ensures
        ({
            let m = crate::material::material_of(root, red2);
            let items = crate::model::list_at(root, "m_intParams"@);
            &&& 0 <= i < items.len() && gives_int(items[i], name, x) && (forall|j: int, y: i64|
                i < j < items.len() ==> !#[trigger] gives_int(items[j], name, y)) ==> crate::table::named(
                m.int_params,
                name,
            ) == Some(x)
            &&& (forall|j: int, y: i64|
                0 <= j < items.len() ==> !#[trigger] gives_int(items[j], name, y)) ==> crate::table::named(
                m.int_params,
                name,
            ) is None
        }),
{
    let items = crate::model::list_at(root, "m_intParams"@);
    let read = |v: Value| crate::kv::signed_of(v);
    assert forall|e: Value, y: i64| #[trigger] gives_int(e, name, y) == names(
        e,
        "m_nValue"@,
        read,
        name,
        y,
    ) by {
    }
    if 0 <= i < items.len() && gives_int(items[i], name, x) && (forall|j: int, y: i64|
        i < j < items.len() ==> !#[trigger] gives_int(items[j], name, y)) {
        assert forall|j: int, y: i64| i + 1 <= j < items.len() implies !#[trigger] names(
            items[j],
            "m_nValue"@,
            read,
            name,
            y,
        ) by {
            assert(!gives_int(items[j], name, y));
        }
        the_last_entry_of_a_name_counts(items, "m_nValue"@, read, name, i, x);
    }
    if forall|j: int, y: i64|
        0 <= j < items.len() ==> !#[trigger] gives_int(items[j], name, y) {
        assert forall|j: int, y: i64| 0 <= j < items.len() implies !#[trigger] names(
            items[j],
            "m_nValue"@,
            read,
            name,
            y,
        ) by {
            assert(!gives_int(items[j], name, y));
        }
        a_name_without_an_entry_has_no_value(items, "m_nValue"@, read, name);
    }
}

/// Whether an entry gives a name its single.
pub open spec fn gives_single(entry: Value, name: Seq<char>, x: u32) -> bool {
    &&& crate::kv::string_at(entry, "m_name"@) matches Some(s) && s@ == name
    &&& crate::kv::child(entry, "m_flValue"@) matches Some(v) && crate::kv::single_of(v) == Some(x)
}

/// The same of its singles.
pub proof fn a_material_has_the_singles_of_its_list(
    root: Value,
    red2: crate::material::Red2View,
    name: Seq<char>,
    i: int,
    x: u32,
)
    ensures
        ({
            let m = crate::material::material_of(root, red2);
            let items = crate::model::list_at(root, "m_floatParams"@);
            &&& 0 <= i < items.len() && gives_single(items[i], name, x) && (forall|j: int, y: u32|
                i < j < items.len() ==> !#[trigger] gives_single(items[j], name, y)) ==> crate::table::named(
                m.float_params,
                name,
            ) == Some(x)
            &&& (forall|j: int, y: u32|
                0 <= j < items.len() ==> !#[trigger] gives_single(items[j], name, y)) ==> crate::table::named(
                m.float_params,
                name,
            ) is None
        }),
{
    let items = crate::model::list_at(root, "m_floatParams"@);
    let read = |v: Value| crate::kv::single_of(v);
    assert forall|e: Value, y: u32| #[trigger] gives_single(e, name, y) == names(
        e,
        "m_flValue"@,
        read,
        name,
        y,
    ) by {
    }
    if 0 <= i < items.len() && gives_single(items[i], name, x) && (forall|j: int, y: u32|
        i < j < items.len() ==> !#[trigger] gives_single(items[j], name, y)) {
        assert forall|j: int, y: u32| i + 1 <= j < items.len() implies !#[trigger] names(
            items[j],
            "m_flValue"@,
            read,
            name,
            y,
        ) by {
            assert(!gives_single(items[j], name, y));
        }
        the_last_entry_of_a_name_counts(items, "m_flValue"@, read, name, i, x);
    }
    if forall|j: int, y: u32|
        0 <= j < items.len() ==> !#[trigger] gives_single(items[j], name, y) {
        assert forall|j: int, y: u32| 0 <= j < items.len() implies !#[trigger] names(
            items[j],
            "m_flValue"@,
            read,
            name,
            y,
        ) by {
            assert(!gives_single(items[j], name, y));
        }
        a_name_without_an_entry_has_no_value(items, "m_flValue"@, read, name);
    }
}

/// Whether an entry gives a name its texture.
pub open spec fn gives_text(entry: Value, name: Seq<char>, x: String) -> bool {
    &&& crate::kv::string_at(entry, "m_name"@) matches Some(s) && s@ == name
    &&& crate::kv::child(entry, "m_pValue"@) matches Some(v) && crate::kv::string_in(v) == Some(x)
}

/// The same of its textures.
pub proof fn a_material_has_the_textures_of_its_list(
    root: Value,
    red2: crate::material::Red2View,
    name: Seq<char>,
    i: int,
    x: String,
)
    ensures
        ({
            let m = crate::material::material_of(root, red2);
            let items = crate::model::list_at(root, "m_textureParams"@);
            &&& 0 <= i < items.len() && gives_text(items[i], name, x) && (forall|j: int, y: String|
                i < j < items.len() ==> !#[trigger] gives_text(items[j], name, y)) ==> crate::table::named(
                m.texture_params,
                name,
            ) == Some(x)
            &&& (forall|j: int, y: String|
                0 <= j < items.len() ==> !#[trigger] gives_text(items[j], name, y)) ==> crate::table::named(
                m.texture_params,
                name,
            ) is None
        }),
{
    let items = crate::model::list_at(root, "m_textureParams"@);
    let read = |v: Value| crate::kv::string_in(v);
    assert forall|e: Value, y: String| #[trigger] gives_text(e, name, y) == names(
        e,
        "m_pValue"@,
        read,
        name,
        y,
    ) by {
    }
    if 0 <= i < items.len() && gives_text(items[i], name, x) && (forall|j: int, y: String|
        i < j < items.len() ==> !#[trigger] gives_text(items[j], name, y)) {
        assert forall|j: int, y: String| i + 1 <= j < items.len() implies !#[trigger] names(
            items[j],
            "m_pValue"@,
            read,
            name,
            y,
        ) by {
            assert(!gives_text(items[j], name, y));
        }
        the_last_entry_of_a_name_counts(items, "m_pValue"@, read, name, i, x);
    }
    if forall|j: int, y: String|
        0 <= j < items.len() ==> !#[trigger] gives_text(items[j], name, y) {
        assert forall|j: int, y: String| 0 <= j < items.len() implies !#[trigger] names(
            items[j],
            "m_pValue"@,
            read,
            name,
            y,
        ) by {
            assert(!gives_text(items[j], name, y));
        }
        a_name_without_an_entry_has_no_value(items, "m_pValue"@, read, name);
    }
}

/// The same of its attributes, which are integers.
pub proof fn a_material_has_the_attributes_of_its_list(
    root: Value,
    red2: crate::material::Red2View,
    name: Seq<char>,
    i: int,
    x: i64,
)
    ensures
        ({
            let m = crate::material::material_of(root, red2);
            let items = crate::model::list_at(root, "m_intAttributes"@);
            &&& 0 <= i < items.len() && gives_int(items[i], name, x) && (forall|j: int, y: i64|
                i < j < items.len() ==> !#[trigger] gives_int(items[j], name, y)) ==> crate::table::named(
                m.int_attributes,
                name,
            ) == Some(x)
            &&& (forall|j: int, y: i64|
                0 <= j < items.len() ==> !#[trigger] gives_int(items[j], name, y)) ==> crate::table::named(
                m.int_attributes,
                name,
            ) is None
        }),
{
    let items = crate::model::list_at(root, "m_intAttributes"@);
    let read = |v: Value| crate::kv::signed_of(v);
    assert forall|e: Value, y: i64| #[trigger] gives_int(e, name, y) == names(
        e,
        "m_nValue"@,
        read,
        name,
        y,
    ) by {
    }
    if 0 <= i < items.len() && gives_int(items[i], name, x) && (forall|j: int, y: i64|
        i < j < items.len() ==> !#[trigger] gives_int(items[j], name, y)) {
        assert forall|j: int, y: i64| i + 1 <= j < items.len() implies !#[trigger] names(
            items[j],
            "m_nValue"@,
            read,
            name,
            y,
        ) by {
            assert(!gives_int(items[j], name, y));
        }
        the_last_entry_of_a_name_counts(items, "m_nValue"@, read, name, i, x);
    }
    if forall|j: int, y: i64|
        0 <= j < items.len() ==> !#[trigger] gives_int(items[j], name, y) {
        assert forall|j: int, y: i64| 0 <= j < items.len() implies !#[trigger] names(
            items[j],
            "m_nValue"@,
            read,
            name,
            y,
        ) by {
            assert(!gives_int(items[j], name, y));
        }
        a_name_without_an_entry_has_no_value(items, "m_nValue"@, read, name);
    }
}

/// The shader of a material is the text under its key without the ending of its file; what its user
/// data says stands under the keys of that.
pub proof fn a_material_has_its_shader_and_its_user_data(
    root: Value,
    red2: crate::material::Red2View,
    tree: Value,
)
    ensures
        match crate::kv::string_at(root, "m_shaderName"@) {
            Some(s) => crate::material::material_of(root, red2).shader
                == crate::text::without_suffix(s@, ".vfx"@),
            None => crate::material::material_of(root, red2).shader.len() == 0,
        },
        crate::material::material_of(root, red2).red2 == red2,
        match crate::kv::child(tree, "m_SearchableUserData"@) {
            Some(data) => {
                &&& crate::material::red2_of(tree).unlit == crate::kv::truth_at(data, "unlit"@)
                &&& crate::material::red2_of(tree).translucent == crate::kv::truth_at(
                    data,
                    "translucent"@,
                )
                &&& crate::material::red2_of(tree).diffuse_albedo_texture
                    == crate::laws::worlds::text_at(data, "LightSim_DiffuseAlbedoTexture"@)
            },
            None => {
                &&& crate::material::red2_of(tree).unlit is None
                &&& crate::material::red2_of(tree).translucent is None
                &&& crate::material::red2_of(tree).diffuse_albedo_texture is None
            },
        },
{
}

/// The texture under a name.
pub open spec fn texture(m: RawView, name: Seq<char>) -> Option<Seq<char>> {
    if m.texture_params.contains_key(name) {
        Some(m.texture_params[name]@)
    } else {
        None
    }
}

/// The integer under a name, or another where there is none.
pub open spec fn whole(m: RawView, name: Seq<char>, default: int) -> int {
    if m.int_params.contains_key(name) {
        m.int_params[name] as int
    } else {
        default
    }
}

/// The single under a name, or another where there is none.
pub open spec fn single(m: RawView, name: Seq<char>, default: u32) -> u32 {
    if m.float_params.contains_key(name) {
        m.float_params[name]
    } else {
        default
    }
}

/// Whether three numbers are the first three of the vector under a name, or others where there is
/// none.
pub open spec fn is_xyz(m: RawView, name: Seq<char>, v: Vector3, x: u32, y: u32, z: u32) -> bool {
    if m.vector_params.contains_key(name) {
        let p = m.vector_params[name];
        v.x == p.x && v.y == p.y && v.z == p.z
    } else {
        v.x == x && v.y == y && v.z == z
    }
}

/// Whether two numbers are the first two of the vector under a name, or others where there is none.
pub open spec fn is_xy(m: RawView, name: Seq<char>, v: Vector2, x: u32, y: u32) -> bool {
    if m.vector_params.contains_key(name) {
        let p = m.vector_params[name];
        v.x == p.x && v.y == p.y
    } else {
        v.x == x && v.y == y
    }
}

/// Whether a shader is one of those for the ground and the walls of a map.
pub open spec fn draws_environment(m: RawView) -> bool {
    m.shader == "csgo_environment"@ || m.shader == "csgo_environment_blend"@
}

/// What a material amounts to follows from its shader and from its parameters by their names.
pub proof fn a_material_amounts_to_what_its_parameters_say(m: RawView)
    ensures
        ({
            let r = crate::material::resolved(m);
            &&& r.shader == m.shader
            &&& r.constant_black == (m.shader == "csgo_black_unlit"@)
            &&& m.shader == "csgo_black_unlit"@ ==> r.base_color_texture is None
            &&& m.shader != "csgo_black_unlit"@ ==> {
                let own = texture(
                    m,
                    if draws_environment(m) {
                        "g_tColor1"@
                    } else {
                        "g_tColor"@
                    },
                );
                r.base_color_texture == if own is Some {
                    own
                } else {
                    m.red2.diffuse_albedo_texture
                }
            }
            &&& r.normal_texture == texture(
                m,
                if m.shader == "csgo_lightmappedgeneric"@ {
                    "g_tLayer1NormalRoughness"@
                } else if draws_environment(m) {
                    "g_tNormal1"@
                } else {
                    "g_tNormal"@
                },
            )
            &&& r.ao_texture == texture(
                m,
                if m.shader == "csgo_lightmappedgeneric"@ {
                    "g_tLayer1AmbientOcclusion"@
                } else {
                    "g_tAmbientOcclusion"@
                },
            )
            &&& match texture(m, "g_tMetalness"@) {
                Some(t) => r.metalness == MetalnessView::Texture(t),
                None => r.metalness == MetalnessView::Scalar(single(m, "g_flMetalness"@, 0)),
            }
            &&& r.tint_mask_texture == texture(m, "g_tTintMask"@)
            &&& r.tint_mask == (whole(m, "F_TINT_MASK"@, 0) == 1)
            &&& is_xyz(m, "g_vColorTint"@, r.color_tint, 0x3F80_0000, 0x3F80_0000, 0x3F80_0000)
            &&& r.model_tint_amount == single(m, "g_flModelTintAmount"@, 0x3F80_0000)
            &&& r.double_sided == (whole(m, "F_RENDER_BACKFACES"@, 0) == 1)
            &&& r.unlit == (m.shader == "csgo_unlitgeneric"@ || m.shader == "csgo_black_unlit"@
                || m.shader == "csgo_effects"@ || m.red2.unlit == Some(true))
            &&& r.material_says_overlay == (whole(m, "F_OVERLAY"@, 0) == 1 || m.shader
                == "csgo_static_overlay"@)
            &&& r.no_specular_at_full_roughness == (whole(
                m,
                "F_NO_SPECULAR_AT_FULL_ROUGHNESS"@,
                0,
            ) == 1)
            &&& r.fog_enabled == (whole(m, "g_bFogEnabled"@, 1) != 0)
            &&& r.alpha_cutoff == if r.alpha_mode == AlphaMode::Mask {
                Some(single(m, "g_flAlphaTestReference"@, 0x3F00_0000))
            } else {
                None
            }
        }),
{
}

/// How the alpha of a material is used: the blend mode of an overlay or an unlit material decides
/// where it has one; else a translucent material is blended and a tested one is cut.
pub proof fn alpha_follows_the_blend_mode_and_then_the_flags(m: RawView)
    ensures
        ({
            let r = crate::material::resolved(m);
            let has_mode = m.shader == "csgo_static_overlay"@ || m.shader == "csgo_unlitgeneric"@;
            let mode = if has_mode {
                whole(m, "F_BLEND_MODE"@, 0)
            } else {
                0
            };
            let translucent = whole(m, "F_TRANSLUCENT"@, 0) == 1 || m.shader == "csgo_glass"@
                || m.shader == "csgo_effects"@ || m.red2.translucent == Some(true);
            &&& mode == 2 ==> r.alpha_mode == AlphaMode::Mask
            &&& mode == 1 || 3 <= mode <= 6 ==> r.alpha_mode == AlphaMode::Blend
            &&& mode < 1 || mode > 6 ==> r.alpha_mode == if translucent {
                AlphaMode::Blend
            } else if whole(m, "F_ALPHA_TEST"@, 0) > 0 {
                AlphaMode::Mask
            } else {
                AlphaMode::Opaque
            }
            &&& r.mod2x == (mode == 3)
            &&& r.base_color_alpha_meaning == if r.alpha_mode != AlphaMode::Opaque {
                "opacity"@
            } else if draws_environment(m) {
                "ao"@
            } else if whole(m, "F_METALNESS_TEXTURE"@, 0) == 1 {
                "metalness"@
            } else {
                "none"@
            }
        }),
{
}

/// The layers of a material and the light that it gives off.
pub proof fn layers_and_light_follow_the_parameters(m: RawView)
    ensures
        ({
            let r = crate::material::resolved(m);
            let layered = m.shader == "csgo_lightmappedgeneric"@ && whole(m, "F_LAYERS"@, 0) == 1;
            let glows = m.shader == "csgo_unlitgeneric"@ || whole(m, "F_SELF_ILLUM"@, 0) == 1;
            &&& r.layers is Some == layered
            &&& layered ==> {
                let l = r.layers->Some_0;
                &&& l.layer2_color == texture(m, "g_tLayer2Color"@)
                &&& l.layer2_normal == texture(m, "g_tLayer2NormalRoughness"@)
                &&& l.blend_modulation == if whole(m, "F_FANCY_BLENDING"@, 0) > 0 {
                    texture(m, "g_tBlendModulation"@)
                } else {
                    None
                }
            }
            &&& r.self_illum is Some == (glows && texture(m, "g_tSelfIllumMask"@) is Some)
            &&& r.self_illum matches Some(s) ==> {
                &&& texture(m, "g_tSelfIllumMask"@) == Some(s.texture)
                &&& s.scale == single(m, "g_flSelfIllumScale"@, 0x3F80_0000)
                &&& s.brightness == single(m, "g_flSelfIllumBrightness"@, 0)
                &&& s.albedo_factor == single(m, "g_flSelfIllumAlbedoFactor"@, 0)
                &&& s.tint is Some == m.vector_params.contains_key("g_vSelfIllumTint"@)
                &&& s.tint matches Some(t) ==> is_xyz(m, "g_vSelfIllumTint"@, t, 0, 0, 0)
            }
        }),
{
}

/// Whether the parameters of a height layer are those whose names end in its number.
pub open spec fn is_height(m: RawView, n: Seq<char>, h: crate::material::EnvHeightView) -> bool {
    &&& h.height_texture == texture(m, "g_tHeight"@ + n)
    &&& h.roughness_contrast == single(m, "g_fTextureRoughnessContrast"@ + n, 0x3F80_0000)
    &&& h.roughness_brightness == single(m, "g_fTextureRoughnessBrightness"@ + n, 0x3F80_0000)
    &&& is_xyz(
        m,
        "g_vAmbientOcclusionLevels"@ + n,
        h.ao_levels,
        0,
        0x3F00_0000,
        0x3F80_0000,
    )
    &&& h.metalness_enabled == (whole(m, "g_bMetalness"@ + n, 1) != 0)
    &&& h.color_csb.x == single(m, "g_fTextureColorContrast"@ + n, 0x3F80_0000)
    &&& h.color_csb.y == single(m, "g_fTextureColorSaturation"@ + n, 0x3F80_0000)
    &&& h.color_csb.z == single(m, "g_fTextureColorBrightness"@ + n, 0x3F80_0000)
    &&& is_xyz(
        m,
        "g_vTextureColorTint"@ + n,
        h.color_tint,
        0x3F80_0000,
        0x3F80_0000,
        0x3F80_0000,
    )
    &&& h.color_correction_mode == whole(m, "g_nColorCorrectionMode"@ + n, 0)
    &&& h.tint_mask_contrast == single(m, "g_fTintMaskContrast"@ + n, 0x3F80_0000)
    &&& h.tint_mask_brightness == single(m, "g_fTintMaskBrightness"@ + n, 0x3F80_0000)
    &&& is_xy(m, "g_vTexCoordScale"@ + n, h.uv_scale, 0x3F80_0000, 0x3F80_0000)
    &&& is_xy(m, "g_vTexCoordOffset"@ + n, h.uv_offset, 0, 0)
    &&& h.normal_contrast == single(m, "g_fTextureNormalContrast"@ + n, 0x3F80_0000)
    &&& h.uv_rotation == single(m, "g_flTexCoordRotation"@ + n, 0)
}

/// The layers of an environment: the first of every such shader, the second of the blending one where
/// it has a texture.
pub proof fn environment_layers_follow_the_parameters(m: RawView)
    ensures
        ({
            let r = crate::material::resolved(m);
            let second = m.shader == "csgo_environment_blend"@ && (texture(m, "g_tColor2"@) is Some
                || texture(m, "g_tNormal2"@) is Some);
            &&& r.env1 is Some == draws_environment(m)
            &&& r.env1 matches Some(h) ==> is_height(m, "1"@, h)
            &&& r.env_layer2 is Some == second
            &&& r.env_layer2 matches Some(e) ==> {
                &&& e.color2 == texture(m, "g_tColor2"@)
                &&& e.normal2 == texture(m, "g_tNormal2"@)
                &&& is_height(m, "2"@, e.height)
                &&& e.height_scale1 == single(m, "g_flHeightMapScale1"@, 0x3F80_0000)
                &&& e.height_zero_point1 == single(m, "g_flHeightMapZeroPoint1"@, 0x3F00_0000)
                &&& e.height_scale2 == single(m, "g_flHeightMapScale2"@, 0x3F80_0000)
                &&& e.height_zero_point2 == single(m, "g_flHeightMapZeroPoint2"@, 0x3F00_0000)
                &&& e.blend_softness2 == single(m, "g_flBlendSoftness2"@, 0x3C23_D70A)
                &&& e.facing2 is Some == (whole(m, "F_BLEND_BY_FACING_DIRECTION_2"@, 0) > 0)
                &&& e.facing2 matches Some(f) ==> {
                    let d = m.vector_params["g_vFacingDirection2"@];
                    &&& m.vector_params.contains_key("g_vFacingDirection2"@) ==> f.direction.x
                        == d.x && f.direction.y == d.y && (d.z % 0x8000_0000 != 0
                        ==> f.direction.z == d.z)
                    &&& !m.vector_params.contains_key("g_vFacingDirection2"@) ==> f.direction.x == 0
                        && f.direction.y == 0 && f.direction.z == 0x3F80_0000
                    &&& f.spread == single(m, "g_flFacingDirectionMaskSpread2"@, 0x3F00_0000)
                    &&& m.float_params.contains_key("g_vFacingDirectionMaskFalloff2"@)
                        ==> f.falloff == m.float_params["g_vFacingDirectionMaskFalloff2"@]
                }
            }
        }),
{
}

/// A material is one for tools if its attribute says so with a 1.
pub proof fn a_material_for_tools_says_so(m: RawView)
    ensures
        crate::material::is_tools(m) == (m.int_attributes.contains_key("tools.toolsmaterial"@)
            && m.int_attributes["tools.toolsmaterial"@] == 1),
{
}

/// A list that is not there is empty; one that is there holds its items.
pub proof fn a_list_holds_its_items(v: Value, key: Seq<char>)
    ensures
        match crate::kv::child(v, key) {
            Some(Value::Array(a)) => crate::model::list_at(v, key) == a@,
            _ => crate::model::list_at(v, key).len() == 0,
        },
{
}

/// The user data of a material is that of its first block of its kind, where that could be read.
pub proof fn user_data_stands_in_its_block(resource: crate::kv::Resource)
    ensures
        match crate::kv::block_from(resource.blocks@, seq![0x52u8, 0x45u8, 0x44u8, 0x32u8], 0) {
            Some(block) => match block.tree {
                Ok(root) => crate::material::block_red2(resource) == crate::material::red2_of(root),
                Err(_) => {
                    let r = crate::material::block_red2(resource);
                    r.unlit is None && r.translucent is None && r.diffuse_albedo_texture is None
                },
            },
            None => {
                let r = crate::material::block_red2(resource);
                r.unlit is None && r.translucent is None && r.diffuse_albedo_texture is None
            },
        },
{
    assert(crate::kv::RED2@ =~= seq![0x52u8, 0x45u8, 0x44u8, 0x32u8]);
}

/// What a second layer of an environment asks for that is not drawn is told of, each for its own reason.
pub proof fn what_is_not_drawn_of_a_layer_is_told_of(m: RawView)
    ensures
        ({
            let u = crate::material::unsupported_of(m);
            let blending = whole(m, "F_USE_NEW_BLENDING"@, 0) == 1;
            let third = whole(m, "F_ENABLE_LAYER_3"@, 0) == 1;
            let biplanar = whole(m, "g_nUVSet1"@, 1) == 0 || whole(m, "g_nUVSet2"@, 1) == 0;
            let a = if blending {
                1int
            } else {
                0
            };
            let b = if third {
                a + 1
            } else {
                a
            };
            &&& u.len() == if biplanar {
                b + 1
            } else {
                b
            }
            &&& blending ==> u[0].0 == "newBlending"@
            &&& third ==> u[a].0 == "layer3"@
            &&& biplanar ==> u[b].0 == "biplanar"@
        }),
        crate::material::resolved(m).env_layer2 matches Some(e) ==> e.unsupported
            == crate::material::unsupported_of(m),
{
}

/// Which way a layer faces, where what it says of the third direction is nought, and how its weight falls
/// off, where that is given as a vector or not at all.
pub proof fn a_layer_faces_as_it_says(m: RawView)
    ensures
        crate::material::facing_of(m) matches Some(f) ==> {
            let d = m.vector_params["g_vFacingDirection2"@];
            let key = "g_vFacingDirectionMaskFalloff2"@;
            &&& m.vector_params.contains_key("g_vFacingDirection2"@) && d.z % 0x8000_0000 == 0
                ==> f.direction.z == 0x38D1_B717
            &&& !m.float_params.contains_key(key) && m.vector_params.contains_key(key) ==> f.falloff
                == m.vector_params[key].x
            &&& !m.float_params.contains_key(key) && !m.vector_params.contains_key(key)
                ==> f.falloff == 0x3DCC_CCCD
        },
{
}

} // verus!
