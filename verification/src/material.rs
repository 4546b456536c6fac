//! Materials: the shader and its parameters, and the rendering rules that follow from them.

use crate::bits::{f32_is_zero, F32_HALF, F32_ONE, F32_ZERO};
use crate::kv::{Resource, Value, RED2};
use crate::table::Table;
use crate::text::{concat, same, trim_suffix};
use vstd::prelude::*;

verus! {

/// Why a material could not be decoded.
#[derive(Debug)]
pub enum MaterialError {
    Resource { path: String, message: String },
}

/// The message of a material error.
pub open spec fn material_error_text(path: Seq<char>, message: Seq<char>) -> Seq<char> {
    path + ": resource error: "@ + message
}

impl MaterialError {
    /// The message.
    pub fn message(&self) -> (r: String)
        ensures
            match *self {
                MaterialError::Resource { path, message } => r@ == material_error_text(
                    path@,
                    message@,
                ),
            },
    {
        match self {
            MaterialError::Resource { path, message } => {
                let mut r: String = concat(path.as_str(), ": resource error: ");
                r.append(message.as_str());
                r
            },
        }
    }
}

/// Four numbers, as the bits of singles.
#[derive(Debug, Clone, Copy, PartialEq, Eq, Structural)]
pub struct Vector4 {
    pub x: u32,
    pub y: u32,
    pub z: u32,
    pub w: u32,
}

/// Three numbers, as the bits of singles.
#[derive(Debug, Clone, Copy, PartialEq, Eq, Structural)]
pub struct Vector3 {
    pub x: u32,
    pub y: u32,
    pub z: u32,
}

/// Two numbers, as the bits of singles.
#[derive(Debug, Clone, Copy, PartialEq, Eq, Structural)]
pub struct Vector2 {
    pub x: u32,
    pub y: u32,
}

/// What the searchable user data of a material says, in the older schema.
#[derive(Debug, Clone)]
pub struct Red2Info {
    pub unlit: Option<bool>,
    pub translucent: Option<bool>,
    pub diffuse_albedo_texture: Option<String>,
}

/// A [`Red2Info`] as plain values.
pub struct Red2View {
    pub unlit: Option<bool>,
    pub translucent: Option<bool>,
    pub diffuse_albedo_texture: Option<Seq<char>>,
}

impl View for Red2Info {
    type V = Red2View;

    open spec fn view(&self) -> Red2View {
        Red2View {
            unlit: self.unlit,
            translucent: self.translucent,
            diffuse_albedo_texture: crate::text::opt_text(self.diffuse_albedo_texture),
        }
    }
}

/// User data that says nothing.
pub open spec fn no_red2() -> Red2View {
    Red2View { unlit: None, translucent: None, diffuse_albedo_texture: None }
}

impl Default for Red2Info {
    fn default() -> (r: Red2Info)
        ensures
            r@ == no_red2(),
    {
        Red2Info { unlit: None, translucent: None, diffuse_albedo_texture: None }
    }
}

/// A decoded material: its shader, without the suffix, and its parameters.
#[derive(Debug, Clone)]
pub struct RawMaterial {
    pub shader: String,
    pub int_params: Table<i64>,
    pub float_params: Table<u32>,
    pub vector_params: Table<Vector4>,
    pub texture_params: Table<String>,
    pub int_attributes: Table<i64>,
    pub red2: Red2Info,
}

/// A [`RawMaterial`] as plain values.
pub struct RawView {
    pub shader: Seq<char>,
    pub int_params: Map<Seq<char>, i64>,
    pub float_params: Map<Seq<char>, u32>,
    pub vector_params: Map<Seq<char>, Vector4>,
    pub texture_params: Map<Seq<char>, String>,
    pub int_attributes: Map<Seq<char>, i64>,
    pub red2: Red2View,
}

impl View for RawMaterial {
    type V = RawView;

    open spec fn view(&self) -> RawView {
        RawView {
            shader: self.shader@,
            int_params: self.int_params@,
            float_params: self.float_params@,
            vector_params: self.vector_params@,
            texture_params: self.texture_params@,
            int_attributes: self.int_attributes@,
            red2: self.red2@,
        }
    }
}

impl Default for RawMaterial {
    fn default() -> (r: RawMaterial)
        ensures
            r@ == (RawView {
                shader: Seq::empty(),
                int_params: Map::empty(),
                float_params: Map::empty(),
                vector_params: Map::empty(),
                texture_params: Map::empty(),
                int_attributes: Map::empty(),
                red2: no_red2(),
            }),
    {
        let shader: String = String::new();
        assert(shader@ =~= Seq::<char>::empty());
        RawMaterial {
            shader,
            int_params: Table::new(),
            float_params: Table::new(),
            vector_params: Table::new(),
            texture_params: Table::new(),
            int_attributes: Table::new(),
            red2: Red2Info::default(),
        }
    }
}

/// An integer parameter; `default` where it is absent.
pub open spec fn int_or(m: RawView, name: Seq<char>, default: i64) -> i64 {
    match crate::table::named(m.int_params, name) {
        Some(i) => i,
        None => default,
    }
}

/// An integer parameter; 0 where it is absent.
pub open spec fn int_of(m: RawView, name: Seq<char>) -> i64 {
    int_or(m, name, 0)
}

/// A number parameter; `default` where it is absent.
pub open spec fn float_or(m: RawView, name: Seq<char>, default: u32) -> u32 {
    match crate::table::named(m.float_params, name) {
        Some(f) => f,
        None => default,
    }
}

/// A texture parameter.
pub open spec fn texture_of(m: RawView, name: Seq<char>) -> Option<Seq<char>> {
    crate::text::opt_text(crate::table::named(m.texture_params, name))
}

/// The first three numbers of a vector parameter.
pub open spec fn xyz_or(m: RawView, name: Seq<char>, default: Vector3) -> Vector3 {
    match crate::table::named(m.vector_params, name) {
        Some(v) => Vector3 { x: v.x, y: v.y, z: v.z },
        None => default,
    }
}

/// The first two numbers of a vector parameter.
pub open spec fn xy_or(m: RawView, name: Seq<char>, default: Vector2) -> Vector2 {
    match crate::table::named(m.vector_params, name) {
        Some(v) => Vector2 { x: v.x, y: v.y },
        None => default,
    }
}

/// Whether a material is one of the tools: the attribute's value counts, not its presence.
pub open spec fn is_tools(m: RawView) -> bool {
    crate::table::named(m.int_attributes, "tools.toolsmaterial"@) == Some(1i64)
}

impl RawMaterial {
    /// An integer parameter; 0 where it is absent.
    pub fn int_param(&self, name: &str) -> (r: i64)
        ensures
            r == int_of(self@, name@),
    {
        self.int_or(name, 0)
    }

    /// An integer parameter; `default` where it is absent.
    pub fn int_or(&self, name: &str, default: i64) -> (r: i64)
        ensures
            r == int_or(self@, name@, default),
    {
        match self.int_params.get(name) {
            Some(i) => *i,
            None => default,
        }
    }

    /// A number parameter.
    pub fn float(&self, name: &str) -> (r: Option<u32>)
        ensures
            r == crate::table::named(self@.float_params, name@),
    {
        match self.float_params.get(name) {
            Some(f) => Some(*f),
            None => None,
        }
    }

    /// A number parameter; `default` where it is absent.
    pub fn float_or(&self, name: &str, default: u32) -> (r: u32)
        ensures
            r == float_or(self@, name@, default),
    {
        match self.float_params.get(name) {
            Some(f) => *f,
            None => default,
        }
    }

    /// A vector parameter.
    pub fn vector(&self, name: &str) -> (r: Option<Vector4>)
        ensures
            r == crate::table::named(self@.vector_params, name@),
    {
        match self.vector_params.get(name) {
            Some(v) => Some(*v),
            None => None,
        }
    }

    /// The first three numbers of a vector parameter.
    fn xyz_or(&self, name: &str, default: Vector3) -> (r: Vector3)
        ensures
            r == xyz_or(self@, name@, default),
    {
        match self.vector_params.get(name) {
            Some(v) => Vector3 { x: v.x, y: v.y, z: v.z },
            None => default,
        }
    }

    /// The first two numbers of a vector parameter.
    fn xy_or(&self, name: &str, default: Vector2) -> (r: Vector2)
        ensures
            r == xy_or(self@, name@, default),
    {
        match self.vector_params.get(name) {
            Some(v) => Vector2 { x: v.x, y: v.y },
            None => default,
        }
    }

    /// A texture parameter.
    pub fn texture(&self, name: &str) -> (r: Option<String>)
        ensures
            crate::text::opt_text(r) == texture_of(self@, name@),
    {
        match self.texture_params.get(name) {
            Some(t) => Some(t.clone()),
            None => None,
        }
    }

    /// Whether this is a material of the tools.
    pub fn is_tools_material(&self) -> (r: bool)
        ensures
            r == is_tools(self@),
    {
        match self.int_attributes.get("tools.toolsmaterial") {
            Some(i) => *i == 1,
            None => false,
        }
    }
}

/// A shader's name without its suffix.
pub fn strip_vfx(s: &str) -> (r: String)
    ensures
        r@ == crate::text::without_suffix(s@, ".vfx"@),
{
    trim_suffix(s, ".vfx")
}

/// The named values of a list of entries: each has its name under `m_name` and its value under
/// `value_key`; one without either counts for nothing.
pub open spec fn named_values<T>(
    items: Seq<Value>,
    value_key: Seq<char>,
    read: spec_fn(Value) -> Option<T>,
) -> Map<Seq<char>, T>
    decreases items.len(),
{
    if items.len() == 0 {
        Map::empty()
    } else {
        let before = named_values(items.drop_last(), value_key, read);
        match crate::kv::string_at(items.last(), "m_name"@) {
            Some(name) => match crate::kv::child(items.last(), value_key) {
                Some(v) => match read(v) {
                    Some(x) => before.insert(name@, x),
                    None => before,
                },
                None => before,
            },
            None => before,
        }
    }
}

/// Reads the named values of the list under `key`; `get` reads one value, as `read` states.
fn parse_named_params<T, F: Fn(&Value) -> Option<T>>(
    root: &Value,
    key: &str,
    value_key: &str,
    get: F,
    Ghost(read): Ghost<spec_fn(Value) -> Option<T>>,
) -> (r: Table<T>)
    requires
        forall|v: &Value| call_requires(get, (v,)),
        forall|v: &Value, o: Option<T>| call_ensures(get, (v,), o) ==> o == read(*v),
    ensures
        r@ == named_values(crate::model::list_at(*root, key@), value_key@, read),
{
    let mut out: Table<T> = Table::new();
    match root.get_array(key) {
        Some(items) => {
            let mut i: usize = 0;
            while i < items.len()
                invariant
                    i <= items@.len(),
                    forall|v: &Value| call_requires(get, (v,)),
                    forall|v: &Value, o: Option<T>| call_ensures(get, (v,), o) ==> o == read(*v),
                    out@ == named_values(items@.take(i as int), value_key@, read),
                decreases items@.len() - i,
            {
                proof {
                    assert(items@.take(i + 1).drop_last() =~= items@.take(i as int));
                    assert(items@.take(i + 1).last() == items@[i as int]);
                }
                match items[i].get_string("m_name") {
                    Some(name) => match items[i].get(value_key) {
                        Some(v) => match get(v) {
                            Some(x) => {
                                out.insert(name, x);
                            },
                            None => {},
                        },
                        None => {},
                    },
                    None => {},
                }
                i += 1;
            }
            assert(items@.take(i as int) =~= items@);
        },
        None => {},
    }
    out
}

/// Four numbers; the last is 1 where only three are given.
pub open spec fn vector4_of(v: Value) -> Option<Vector4> {
    match crate::kv::items_of(v) {
        Some(a) => if a.len() < 3 {
            None
        } else {
            Some(
                Vector4 {
                    x: crate::world::single_or(a, 0, F32_ZERO),
                    y: crate::world::single_or(a, 1, F32_ZERO),
                    z: crate::world::single_or(a, 2, F32_ZERO),
                    w: if a.len() > 3 {
                        crate::world::single_or(a, 3, F32_ONE)
                    } else {
                        F32_ONE
                    },
                },
            )
        },
        None => None,
    }
}

/// Reads four numbers.
pub fn parse_vector4(v: &Value) -> (r: Option<Vector4>)
    ensures
        r == vector4_of(*v),
        r matches Some(p) ==> (crate::kv::items_of(*v) matches Some(a) && {
            &&& a.len() >= 3
            &&& crate::kv::single_of(a[0]) == Some(p.x) || crate::kv::single_of(a[0]) is None && p.x
                == F32_ZERO
            &&& crate::kv::single_of(a[1]) == Some(p.y) || crate::kv::single_of(a[1]) is None && p.y
                == F32_ZERO
            &&& crate::kv::single_of(a[2]) == Some(p.z) || crate::kv::single_of(a[2]) is None && p.z
                == F32_ZERO
            &&& a.len() > 3 ==> crate::kv::single_of(a[3]) == Some(p.w) || crate::kv::single_of(
                a[3],
            ) is None && p.w == F32_ONE
        }),
{
    match v.as_array() {
        Some(a) => {
            if a.len() < 3 {
                return None;
            }
            let x: Option<u32> = a[0].as_f32();
            let y: Option<u32> = a[1].as_f32();
            let z: Option<u32> = a[2].as_f32();
            let w: Option<u32> = if a.len() > 3 {
                a[3].as_f32()
            } else {
                None
            };
            Some(
                Vector4 {
                    x: x.unwrap_or(F32_ZERO),
                    y: y.unwrap_or(F32_ZERO),
                    z: z.unwrap_or(F32_ZERO),
                    w: w.unwrap_or(F32_ONE),
                },
            )
        },
        None => None,
    }
}

/// What a root's searchable user data says.
pub open spec fn red2_of(root: Value) -> Red2View {
    match crate::kv::child(root, "m_SearchableUserData"@) {
        Some(data) => Red2View {
            unlit: crate::kv::truth_at(data, "unlit"@),
            translucent: crate::kv::truth_at(data, "translucent"@),
            diffuse_albedo_texture: crate::text::opt_text(
                crate::kv::string_at(data, "LightSim_DiffuseAlbedoTexture"@),
            ),
        },
        None => no_red2(),
    }
}

/// Reads what a root's searchable user data says.
pub fn parse_red2(root: &Value) -> (r: Red2Info)
    ensures
        r@ == red2_of(*root),
{
    match root.get("m_SearchableUserData") {
        Some(data) => Red2Info {
            unlit: data.get_truth("unlit"),
            translucent: data.get_truth("translucent"),
            diffuse_albedo_texture: data.get_string("LightSim_DiffuseAlbedoTexture"),
        },
        None => Red2Info::default(),
    }
}

/// What the block of a resource says of its user data; a block that cannot be read says nothing.
pub open spec fn block_red2(resource: Resource) -> Red2View {
    match crate::kv::block_from(resource.blocks@, RED2@, 0) {
        Some(block) => match block.tree {
            Ok(root) => red2_of(root),
            Err(_) => no_red2(),
        },
        None => no_red2(),
    }
}

/// The material that a root describes.
pub open spec fn material_of(root: Value, red2: Red2View) -> RawView {
    RawView {
        shader: match crate::kv::string_at(root, "m_shaderName"@) {
            Some(s) => crate::text::without_suffix(s@, ".vfx"@),
            None => Seq::empty(),
        },
        int_params: named_values(
            crate::model::list_at(root, "m_intParams"@),
            "m_nValue"@,
            |v: Value| crate::kv::signed_of(v),
        ),
        float_params: named_values(
            crate::model::list_at(root, "m_floatParams"@),
            "m_flValue"@,
            |v: Value| crate::kv::single_of(v),
        ),
        vector_params: named_values(
            crate::model::list_at(root, "m_vectorParams"@),
            "m_value"@,
            |v: Value| vector4_of(v),
        ),
        texture_params: named_values(
            crate::model::list_at(root, "m_textureParams"@),
            "m_pValue"@,
            |v: Value| crate::kv::string_in(v),
        ),
        int_attributes: named_values(
            crate::model::list_at(root, "m_intAttributes"@),
            "m_nValue"@,
            |v: Value| crate::kv::signed_of(v),
        ),
        red2,
    }
}

/// Decodes a material: its data, and the user data where it has the block.
pub fn decode_material(resource: &Resource, path: &str) -> (r: Result<RawMaterial, MaterialError>)
    ensures
        match r {
            Ok(m) => resource.data matches Ok(root) && m@ == material_of(
                root,
                block_red2(*resource),
            ),
            Err(MaterialError::Resource { path: at, message }) => {
                &&& at@ == path@
                &&& resource.data matches Err(why)
                &&& message == why
            },
        },
{
    let root: &Value = match &resource.data {
        Ok(root) => root,
        Err(message) => {
            return Err(
                MaterialError::Resource { path: path.to_owned(), message: message.clone() },
            );
        },
    };
    let shader: String = match root.get_string("m_shaderName") {
        Some(s) => strip_vfx(s.as_str()),
        None => {
            let s: String = String::new();
            assert(s@ =~= Seq::<char>::empty());
            s
        },
    };
    let ints = |v: &Value| -> (o: Option<i64>)
        ensures
            o == crate::kv::signed_of(*v),
        { v.as_i64() };
    let singles = |v: &Value| -> (o: Option<u32>)
        ensures
            o == crate::kv::single_of(*v),
        { v.as_f32() };
    let vectors = |v: &Value| -> (o: Option<Vector4>)
        ensures
            o == vector4_of(*v),
        { parse_vector4(v) };
    let strings = |v: &Value| -> (o: Option<String>)
        ensures
            o == crate::kv::string_in(*v),
        {
            match v.as_str() {
                Some(s) => Some(s.clone()),
                None => None,
            }
        };
    let kind: [u8; 4] = RED2;
    let red2: Red2Info = match resource.block(&kind) {
        Some(block) => match &block.tree {
            Ok(tree) => parse_red2(tree),
            Err(_) => Red2Info::default(),
        },
        None => Red2Info::default(),
    };
    Ok(
        RawMaterial {
            shader,
            int_params: parse_named_params(
                root,
                "m_intParams",
                "m_nValue",
                ints,
                Ghost(|v: Value| crate::kv::signed_of(v)),
            ),
            float_params: parse_named_params(
                root,
                "m_floatParams",
                "m_flValue",
                singles,
                Ghost(|v: Value| crate::kv::single_of(v)),
            ),
            vector_params: parse_named_params(
                root,
                "m_vectorParams",
                "m_value",
                vectors,
                Ghost(|v: Value| vector4_of(v)),
            ),
            texture_params: parse_named_params(
                root,
                "m_textureParams",
                "m_pValue",
                strings,
                Ghost(|v: Value| crate::kv::string_in(v)),
            ),
            int_attributes: parse_named_params(
                root,
                "m_intAttributes",
                "m_nValue",
                ints,
                Ghost(|v: Value| crate::kv::signed_of(v)),
            ),
            red2,
        },
    )
}

/// How a material's alpha is used.
#[derive(Debug, Clone, Copy, PartialEq, Eq, Structural)]
pub enum AlphaMode {
    Opaque,
    Mask,
    Blend,
}

/// The second layer of a layered material.
#[derive(Debug, Clone)]
pub struct LayerBlend {
    pub layer2_color: Option<String>,
    pub layer2_normal: Option<String>,
    /// Absent where fancy blending is off.
    pub blend_modulation: Option<String>,
}

/// A [`LayerBlend`] as plain values.
pub struct LayerBlendView {
    pub layer2_color: Option<Seq<char>>,
    pub layer2_normal: Option<Seq<char>>,
    pub blend_modulation: Option<Seq<char>>,
}

impl View for LayerBlend {
    type V = LayerBlendView;

    open spec fn view(&self) -> LayerBlendView {
        LayerBlendView {
            layer2_color: crate::text::opt_text(self.layer2_color),
            layer2_normal: crate::text::opt_text(self.layer2_normal),
            blend_modulation: crate::text::opt_text(self.blend_modulation),
        }
    }
}

/// How the two layers are mixed: `m` is the modulation texture at the second layer's coordinates,
/// and `w` the blend attribute of the vertex.
pub const LAYER_BLEND_FORMULA: &'static str =
    "b = smoothstep(max(0, m.g - m.r), min(1, m.g + m.r), w); color = mix(layer1, layer2, b)";

/// The inputs of one layer of an environment shader.
#[derive(Debug, Clone)]
pub struct EnvHeightParams {
    pub height_texture: Option<String>,
    pub roughness_contrast: u32,
    pub roughness_brightness: u32,
    pub ao_levels: Vector3,
    pub metalness_enabled: bool,
    /// Contrast, saturation and brightness.
    pub color_csb: Vector3,
    pub color_tint: Vector3,
    pub color_correction_mode: i64,
    pub tint_mask_contrast: u32,
    pub tint_mask_brightness: u32,
    pub uv_scale: Vector2,
    pub uv_offset: Vector2,
    pub normal_contrast: u32,
    /// In degrees.
    pub uv_rotation: u32,
}

/// An [`EnvHeightParams`] as plain values.
pub struct EnvHeightView {
    pub height_texture: Option<Seq<char>>,
    pub roughness_contrast: u32,
    pub roughness_brightness: u32,
    pub ao_levels: Vector3,
    pub metalness_enabled: bool,
    pub color_csb: Vector3,
    pub color_tint: Vector3,
    pub color_correction_mode: i64,
    pub tint_mask_contrast: u32,
    pub tint_mask_brightness: u32,
    pub uv_scale: Vector2,
    pub uv_offset: Vector2,
    pub normal_contrast: u32,
    pub uv_rotation: u32,
}

impl View for EnvHeightParams {
    type V = EnvHeightView;

    open spec fn view(&self) -> EnvHeightView {
        EnvHeightView {
            height_texture: crate::text::opt_text(self.height_texture),
            roughness_contrast: self.roughness_contrast,
            roughness_brightness: self.roughness_brightness,
            ao_levels: self.ao_levels,
            metalness_enabled: self.metalness_enabled,
            color_csb: self.color_csb,
            color_tint: self.color_tint,
            color_correction_mode: self.color_correction_mode,
            tint_mask_contrast: self.tint_mask_contrast,
            tint_mask_brightness: self.tint_mask_brightness,
            uv_scale: self.uv_scale,
            uv_offset: self.uv_offset,
            normal_contrast: self.normal_contrast,
            uv_rotation: self.uv_rotation,
        }
    }
}

/// The inputs of layer `n` of an environment shader, with the shader's own defaults.
pub open spec fn height_params(m: RawView, n: Seq<char>) -> EnvHeightView {
    let one = Vector3 { x: F32_ONE, y: F32_ONE, z: F32_ONE };
    EnvHeightView {
        height_texture: texture_of(m, "g_tHeight"@ + n),
        roughness_contrast: float_or(m, "g_fTextureRoughnessContrast"@ + n, F32_ONE),
        roughness_brightness: float_or(m, "g_fTextureRoughnessBrightness"@ + n, F32_ONE),
        ao_levels: xyz_or(
            m,
            "g_vAmbientOcclusionLevels"@ + n,
            Vector3 { x: F32_ZERO, y: F32_HALF, z: F32_ONE },
        ),
        metalness_enabled: int_or(m, "g_bMetalness"@ + n, 1) != 0,
        color_csb: Vector3 {
            x: float_or(m, "g_fTextureColorContrast"@ + n, F32_ONE),
            y: float_or(m, "g_fTextureColorSaturation"@ + n, F32_ONE),
            z: float_or(m, "g_fTextureColorBrightness"@ + n, F32_ONE),
        },
        color_tint: xyz_or(m, "g_vTextureColorTint"@ + n, one),
        color_correction_mode: int_or(m, "g_nColorCorrectionMode"@ + n, 0),
        tint_mask_contrast: float_or(m, "g_fTintMaskContrast"@ + n, F32_ONE),
        tint_mask_brightness: float_or(m, "g_fTintMaskBrightness"@ + n, F32_ONE),
        uv_scale: xy_or(m, "g_vTexCoordScale"@ + n, Vector2 { x: F32_ONE, y: F32_ONE }),
        uv_offset: xy_or(m, "g_vTexCoordOffset"@ + n, Vector2 { x: F32_ZERO, y: F32_ZERO }),
        normal_contrast: float_or(m, "g_fTextureNormalContrast"@ + n, F32_ONE),
        uv_rotation: float_or(m, "g_flTexCoordRotation"@ + n, F32_ZERO),
    }
}

/// The number under a name that ends in `n`; `default` where it is absent.
fn numbered_float(mat: &RawMaterial, name: &str, n: &str, default: u32) -> (r: u32)
    ensures
        r == float_or(mat@, name@ + n@, default),
{
    let key: String = concat(name, n);
    mat.float_or(key.as_str(), default)
}

/// The inputs of layer `n` of an environment shader.
pub fn env_height_params(mat: &RawMaterial, n: &str) -> (r: EnvHeightParams)
    ensures
        r@ == height_params(mat@, n@),
{
    let one: Vector3 = Vector3 { x: F32_ONE, y: F32_ONE, z: F32_ONE };
    let levels: Vector3 = Vector3 { x: F32_ZERO, y: F32_HALF, z: F32_ONE };
    let unit: Vector2 = Vector2 { x: F32_ONE, y: F32_ONE };
    let origin: Vector2 = Vector2 { x: F32_ZERO, y: F32_ZERO };
    EnvHeightParams {
        height_texture: mat.texture(concat("g_tHeight", n).as_str()),
        roughness_contrast: numbered_float(mat, "g_fTextureRoughnessContrast", n, F32_ONE),
        roughness_brightness: numbered_float(mat, "g_fTextureRoughnessBrightness", n, F32_ONE),
        ao_levels: mat.xyz_or(concat("g_vAmbientOcclusionLevels", n).as_str(), levels),
        metalness_enabled: mat.int_or(concat("g_bMetalness", n).as_str(), 1) != 0,
        color_csb: Vector3 {
            x: numbered_float(mat, "g_fTextureColorContrast", n, F32_ONE),
            y: numbered_float(mat, "g_fTextureColorSaturation", n, F32_ONE),
            z: numbered_float(mat, "g_fTextureColorBrightness", n, F32_ONE),
        },
        color_tint: mat.xyz_or(concat("g_vTextureColorTint", n).as_str(), one),
        color_correction_mode: mat.int_or(concat("g_nColorCorrectionMode", n).as_str(), 0),
        tint_mask_contrast: numbered_float(mat, "g_fTintMaskContrast", n, F32_ONE),
        tint_mask_brightness: numbered_float(mat, "g_fTintMaskBrightness", n, F32_ONE),
        uv_scale: mat.xy_or(concat("g_vTexCoordScale", n).as_str(), unit),
        uv_offset: mat.xy_or(concat("g_vTexCoordOffset", n).as_str(), origin),
        normal_contrast: numbered_float(mat, "g_fTextureNormalContrast", n, F32_ONE),
        uv_rotation: numbered_float(mat, "g_flTexCoordRotation", n, F32_ZERO),
    }
}

/// Blending by the direction that a surface faces: the direction, not yet of unit length, and how
/// far and how softly the blend spreads around it.
#[derive(Debug, Clone, Copy, PartialEq, Eq, Structural)]
pub struct Facing {
    pub direction: Vector3,
    pub spread: u32,
    pub falloff: u32,
}

/// The bits of the single nearest to 0.0001.
pub const F32_NUDGE: u32 = 0x38D1_B717;

/// The bits of the single nearest to 0.1.
pub const F32_TENTH: u32 = 0x3DCC_CCCD;

/// The bits of the single nearest to 0.01.
pub const F32_HUNDREDTH: u32 = 0x3C23_D70A;

/// The facing blend of the second layer. A direction without a third component is nudged off it.
pub open spec fn facing_of(m: RawView) -> Option<Facing> {
    if int_of(m, "F_BLEND_BY_FACING_DIRECTION_2"@) <= 0 {
        None
    } else {
        let d = xyz_or(
            m,
            "g_vFacingDirection2"@,
            Vector3 { x: F32_ZERO, y: F32_ZERO, z: F32_ONE },
        );
        Some(
            Facing {
                direction: Vector3 {
                    x: d.x,
                    y: d.y,
                    z: if crate::bits::f32_magnitude(d.z) == 0 {
                        F32_NUDGE
                    } else {
                        d.z
                    },
                },
                spread: float_or(m, "g_flFacingDirectionMaskSpread2"@, F32_HALF),
                falloff: match crate::table::named(m.float_params, "g_vFacingDirectionMaskFalloff2"@) {
                    Some(f) => f,
                    None => match crate::table::named(m.vector_params, "g_vFacingDirectionMaskFalloff2"@) {
                        Some(v) => v.x,
                        None => F32_TENTH,
                    },
                },
            },
        )
    }
}

/// The facing blend of the second layer.
pub fn env_facing2(mat: &RawMaterial) -> (r: Option<Facing>)
    ensures
        r == facing_of(mat@),
{
    if mat.int_param("F_BLEND_BY_FACING_DIRECTION_2") <= 0 {
        return None;
    }
    let d: Vector3 = mat.xyz_or(
        "g_vFacingDirection2",
        Vector3 { x: F32_ZERO, y: F32_ZERO, z: F32_ONE },
    );
    let falloff: u32 = match mat.float("g_vFacingDirectionMaskFalloff2") {
        Some(f) => f,
        None => match mat.vector("g_vFacingDirectionMaskFalloff2") {
            Some(v) => v.x,
            None => F32_TENTH,
        },
    };
    Some(
        Facing {
            direction: Vector3 {
                x: d.x,
                y: d.y,
                z: if f32_is_zero(d.z) {
                    F32_NUDGE
                } else {
                    d.z
                },
            },
            spread: mat.float_or("g_flFacingDirectionMaskSpread2", F32_HALF),
            falloff,
        },
    )
}

/// The second layer of an environment shader.
#[derive(Debug, Clone)]
pub struct EnvLayer2 {
    pub color2: Option<String>,
    pub normal2: Option<String>,
    pub height: EnvHeightParams,
    pub height_scale1: u32,
    pub height_zero_point1: u32,
    pub height_scale2: u32,
    pub height_zero_point2: u32,
    pub blend_softness2: u32,
    pub facing2: Option<Facing>,
    /// What the material asks for that the blend here does not do: a flag and the reason.
    pub unsupported: Vec<(&'static str, &'static str)>,
}

/// An [`EnvLayer2`] as plain values.
pub struct EnvLayer2View {
    pub color2: Option<Seq<char>>,
    pub normal2: Option<Seq<char>>,
    pub height: EnvHeightView,
    pub height_scale1: u32,
    pub height_zero_point1: u32,
    pub height_scale2: u32,
    pub height_zero_point2: u32,
    pub blend_softness2: u32,
    pub facing2: Option<Facing>,
    pub unsupported: Seq<(Seq<char>, Seq<char>)>,
}

/// The texts of a list of pairs.
pub open spec fn text_pairs(v: Seq<(&'static str, &'static str)>) -> Seq<(Seq<char>, Seq<char>)> {
    Seq::new(v.len(), |i: int| (v[i].0@, v[i].1@))
}

impl View for EnvLayer2 {
    type V = EnvLayer2View;

    open spec fn view(&self) -> EnvLayer2View {
        EnvLayer2View {
            color2: crate::text::opt_text(self.color2),
            normal2: crate::text::opt_text(self.normal2),
            height: self.height@,
            height_scale1: self.height_scale1,
            height_zero_point1: self.height_zero_point1,
            height_scale2: self.height_scale2,
            height_zero_point2: self.height_zero_point2,
            blend_softness2: self.blend_softness2,
            facing2: self.facing2,
            unsupported: text_pairs(self.unsupported@),
        }
    }
}

/// Why the newer blending is not supported.
pub const WHY_NEW_BLENDING: &'static str =
    "F_USE_NEW_BLENDING==1: this material uses BlendLayer/BlendBandWeight (csgo_environment.frag.slang:314-346), not the legacy GetBlendWeights this exporter/viewer implements; the exported weight2 formula will not match the game here";

/// Why a third layer is not supported.
pub const WHY_LAYER_3: &'static str =
    "F_ENABLE_LAYER_3==1: this material has a third layer (g_tColor3/...) this exporter never reads; only layers 1/2 are mixed";

/// Why projected coordinates are not supported.
pub const WHY_BIPLANAR: &'static str =
    "g_nUVSet{1,2}==0 (biplanar/triplanar projection, csgo_environment.frag.slang:403-460): this exporter always samples at the mesh's own UV0/UV1, never the world-space biplanar projection";

/// One reason, where it holds.
pub open spec fn reason_if(holds: bool, flag: Seq<char>, why: Seq<char>) -> Seq<
    (Seq<char>, Seq<char>),
> {
    if holds {
        seq![(flag, why)]
    } else {
        Seq::empty()
    }
}

/// What a material asks for that the blend here does not do.
pub open spec fn unsupported_of(m: RawView) -> Seq<(Seq<char>, Seq<char>)> {
    reason_if(int_of(m, "F_USE_NEW_BLENDING"@) == 1, "newBlending"@, WHY_NEW_BLENDING@)
        + reason_if(int_of(m, "F_ENABLE_LAYER_3"@) == 1, "layer3"@, WHY_LAYER_3@) + reason_if(
        int_or(m, "g_nUVSet1"@, 1) == 0 || int_or(m, "g_nUVSet2"@, 1) == 0,
        "biplanar"@,
        WHY_BIPLANAR@,
    )
}

/// Adds a reason, where it holds.
fn add_reason(
    out: &mut Vec<(&'static str, &'static str)>,
    holds: bool,
    flag: &'static str,
    why: &'static str,
)
    ensures
        text_pairs(final(out)@) == text_pairs(old(out)@) + reason_if(holds, flag@, why@),
{
    let ghost before = text_pairs(out@);
    if holds {
        out.push((flag, why));
    }
    assert(text_pairs(out@) =~= before + reason_if(holds, flag@, why@));
}

/// The second layer of an environment shader: none where the shader is another, or where neither
/// of its textures is set.
pub open spec fn env_layer2_of(m: RawView) -> Option<EnvLayer2View> {
    let color2 = texture_of(m, "g_tColor2"@);
    let normal2 = texture_of(m, "g_tNormal2"@);
    if m.shader != "csgo_environment_blend"@ || (color2 is None && normal2 is None) {
        None
    } else {
        Some(
            EnvLayer2View {
                color2,
                normal2,
                height: height_params(m, "2"@),
                height_scale1: float_or(m, "g_flHeightMapScale1"@, F32_ONE),
                height_zero_point1: float_or(m, "g_flHeightMapZeroPoint1"@, F32_HALF),
                height_scale2: float_or(m, "g_flHeightMapScale2"@, F32_ONE),
                height_zero_point2: float_or(m, "g_flHeightMapZeroPoint2"@, F32_HALF),
                blend_softness2: float_or(m, "g_flBlendSoftness2"@, F32_HUNDREDTH),
                facing2: facing_of(m),
                unsupported: unsupported_of(m),
            },
        )
    }
}

/// The view behind an option.
pub open spec fn opt_view<T: View>(v: Option<T>) -> Option<T::V> {
    match v {
        Some(x) => Some(x@),
        None => None,
    }
}

/// The second layer of an environment shader.
pub fn env_layer2(mat: &RawMaterial) -> (r: Option<EnvLayer2>)
    ensures
        opt_view(r) == env_layer2_of(mat@),
{
    if !same(mat.shader.as_str(), "csgo_environment_blend") {
        return None;
    }
    let color2: Option<String> = mat.texture("g_tColor2");
    let normal2: Option<String> = mat.texture("g_tNormal2");
    if color2.is_none() && normal2.is_none() {
        return None;
    }
    let mut unsupported: Vec<(&'static str, &'static str)> = Vec::new();
    assert(text_pairs(unsupported@) =~= Seq::<(Seq<char>, Seq<char>)>::empty());
    add_reason(
        &mut unsupported,
        mat.int_param("F_USE_NEW_BLENDING") == 1,
        "newBlending",
        WHY_NEW_BLENDING,
    );
    add_reason(&mut unsupported, mat.int_param("F_ENABLE_LAYER_3") == 1, "layer3", WHY_LAYER_3);
    add_reason(
        &mut unsupported,
        mat.int_or("g_nUVSet1", 1) == 0 || mat.int_or("g_nUVSet2", 1) == 0,
        "biplanar",
        WHY_BIPLANAR,
    );
    assert(text_pairs(unsupported@) =~= unsupported_of(mat@));
    Some(
        EnvLayer2 {
            color2,
            normal2,
            height: env_height_params(mat, "2"),
            height_scale1: mat.float_or("g_flHeightMapScale1", F32_ONE),
            height_zero_point1: mat.float_or("g_flHeightMapZeroPoint1", F32_HALF),
            height_scale2: mat.float_or("g_flHeightMapScale2", F32_ONE),
            height_zero_point2: mat.float_or("g_flHeightMapZeroPoint2", F32_HALF),
            blend_softness2: mat.float_or("g_flBlendSoftness2", F32_HUNDREDTH),
            facing2: env_facing2(mat),
            unsupported,
        },
    )
}

/// Light that a material gives off by itself.
#[derive(Debug, Clone)]
pub struct SelfIllum {
    pub texture: String,
    pub scale: u32,
    pub brightness: u32,
    /// The tint before it is made linear; white where the material gives none.
    pub tint: Option<Vector3>,
    pub albedo_factor: u32,
}

/// A [`SelfIllum`] as plain values.
pub struct SelfIllumView {
    pub texture: Seq<char>,
    pub scale: u32,
    pub brightness: u32,
    pub tint: Option<Vector3>,
    pub albedo_factor: u32,
}

impl View for SelfIllum {
    type V = SelfIllumView;

    open spec fn view(&self) -> SelfIllumView {
        SelfIllumView {
            texture: self.texture@,
            scale: self.scale,
            brightness: self.brightness,
            tint: self.tint,
            albedo_factor: self.albedo_factor,
        }
    }
}

/// The light that a material gives off: none unless its shader evaluates it, and none without a
/// mask.
pub open spec fn self_illum_of(m: RawView) -> Option<SelfIllumView> {
    if m.shader != "csgo_unlitgeneric"@ && int_of(m, "F_SELF_ILLUM"@) != 1 {
        None
    } else {
        match texture_of(m, "g_tSelfIllumMask"@) {
            None => None,
            Some(texture) => Some(
                SelfIllumView {
                    texture,
                    scale: float_or(m, "g_flSelfIllumScale"@, F32_ONE),
                    brightness: float_or(m, "g_flSelfIllumBrightness"@, F32_ZERO),
                    tint: match crate::table::named(m.vector_params, "g_vSelfIllumTint"@) {
                        Some(v) => Some(Vector3 { x: v.x, y: v.y, z: v.z }),
                        None => None,
                    },
                    albedo_factor: float_or(m, "g_flSelfIllumAlbedoFactor"@, F32_ZERO),
                },
            ),
        }
    }
}

/// The light that a material gives off.
pub fn self_illum(mat: &RawMaterial) -> (r: Option<SelfIllum>)
    ensures
        opt_view(r) == self_illum_of(mat@),
{
    if !same(mat.shader.as_str(), "csgo_unlitgeneric") && mat.int_param("F_SELF_ILLUM") != 1 {
        return None;
    }
    match mat.texture("g_tSelfIllumMask") {
        None => None,
        Some(texture) => Some(
            SelfIllum {
                texture,
                scale: mat.float_or("g_flSelfIllumScale", F32_ONE),
                brightness: mat.float_or("g_flSelfIllumBrightness", F32_ZERO),
                tint: match mat.vector("g_vSelfIllumTint") {
                    Some(v) => Some(Vector3 { x: v.x, y: v.y, z: v.z }),
                    None => None,
                },
                albedo_factor: mat.float_or("g_flSelfIllumAlbedoFactor", F32_ZERO),
            },
        ),
    }
}

/// Where a material's metalness comes from.
#[derive(Debug, Clone)]
pub enum MetalnessSource {
    Texture(String),
    Scalar(u32),
}

/// A [`MetalnessSource`] as plain values.
pub enum MetalnessView {
    Texture(Seq<char>),
    Scalar(u32),
}

impl View for MetalnessSource {
    type V = MetalnessView;

    open spec fn view(&self) -> MetalnessView {
        match *self {
            MetalnessSource::Texture(t) => MetalnessView::Texture(t@),
            MetalnessSource::Scalar(f) => MetalnessView::Scalar(f),
        }
    }
}

/// The metalness of a material: its texture, else its number, else 0.
pub open spec fn metalness_of(m: RawView) -> MetalnessView {
    match texture_of(m, "g_tMetalness"@) {
        Some(t) => MetalnessView::Texture(t),
        None => MetalnessView::Scalar(float_or(m, "g_flMetalness"@, F32_ZERO)),
    }
}

/// The metalness of a material.
pub fn metalness(mat: &RawMaterial) -> (r: MetalnessSource)
    ensures
        r@ == metalness_of(mat@),
{
    match mat.texture("g_tMetalness") {
        Some(t) => MetalnessSource::Texture(t),
        None => MetalnessSource::Scalar(mat.float_or("g_flMetalness", F32_ZERO)),
    }
}

/// Whether a shader is one of the two environment shaders.
pub open spec fn is_environment(shader: Seq<char>) -> bool {
    shader == "csgo_environment"@ || shader == "csgo_environment_blend"@
}

/// Whether a shader is one of the two environment shaders.
fn environment(shader: &str) -> (r: bool)
    ensures
        r == is_environment(shader@),
{
    same(shader, "csgo_environment") || same(shader, "csgo_environment_blend")
}

/// The base colour texture, and whether the material is plain black instead.
pub open spec fn base_color_of(m: RawView) -> (Option<Seq<char>>, bool) {
    if m.shader == "csgo_black_unlit"@ {
        (None, true)
    } else {
        let own = texture_of(
            m,
            if is_environment(m.shader) {
                "g_tColor1"@
            } else {
                "g_tColor"@
            },
        );
        match own {
            Some(t) => (Some(t), false),
            None => (m.red2.diffuse_albedo_texture, false),
        }
    }
}

/// The base colour texture, and whether the material is plain black instead.
pub fn pick_base_color_texture(mat: &RawMaterial) -> (r: (Option<String>, bool))
    ensures
        (crate::text::opt_text(r.0), r.1) == base_color_of(mat@),
{
    if same(mat.shader.as_str(), "csgo_black_unlit") {
        return (None, true);
    }
    let own: Option<String> = if environment(mat.shader.as_str()) {
        mat.texture("g_tColor1")
    } else {
        mat.texture("g_tColor")
    };
    match own {
        Some(t) => (Some(t), false),
        None => match &mat.red2.diffuse_albedo_texture {
            Some(t) => (Some(t.clone()), false),
            None => (None, false),
        },
    }
}

/// The normal texture, whose name depends on the shader.
pub open spec fn normal_texture_of(m: RawView) -> Option<Seq<char>> {
    texture_of(
        m,
        if m.shader == "csgo_lightmappedgeneric"@ {
            "g_tLayer1NormalRoughness"@
        } else if is_environment(m.shader) {
            "g_tNormal1"@
        } else {
            "g_tNormal"@
        },
    )
}

/// The normal texture.
pub fn pick_normal_texture(mat: &RawMaterial) -> (r: Option<String>)
    ensures
        crate::text::opt_text(r) == normal_texture_of(mat@),
{
    if same(mat.shader.as_str(), "csgo_lightmappedgeneric") {
        mat.texture("g_tLayer1NormalRoughness")
    } else if environment(mat.shader.as_str()) {
        mat.texture("g_tNormal1")
    } else {
        mat.texture("g_tNormal")
    }
}

/// Whether a shader is translucent whatever the flags of the material.
pub open spec fn always_translucent(shader: Seq<char>) -> bool {
    shader == "csgo_glass"@ || shader == "csgo_effects"@
}

/// Whether a shader is translucent whatever the flags of the material.
pub fn shader_is_always_translucent(shader: &str) -> (r: bool)
    ensures
        r == always_translucent(shader@),
{
    same(shader, "csgo_glass") || same(shader, "csgo_effects")
}

/// The rank of a blend mode: 0 opaque, 1 alpha test, 2 translucent, 3 additive, 4 multiply,
/// 5 modulate by two, 6 modulate and add. Translucency wins over the alpha test, and a blend mode
/// other than 0 wins over both, on the shaders that have one.
pub open spec fn blend_rank(m: RawView) -> int {
    let flags = if int_of(m, "F_TRANSLUCENT"@) == 1 || always_translucent(m.shader)
        || m.red2.translucent == Some(true) {
        2
    } else if int_of(m, "F_ALPHA_TEST"@) > 0 {
        1
    } else {
        0int
    };
    let mode = if m.shader == "csgo_static_overlay"@ || m.shader == "csgo_unlitgeneric"@ {
        int_of(m, "F_BLEND_MODE"@)
    } else {
        0
    };
    if mode == 1 {
        2
    } else if mode == 2 {
        1
    } else if mode == 3 {
        5
    } else if mode == 4 {
        3
    } else if mode == 5 {
        4
    } else if mode == 6 {
        6
    } else {
        flags
    }
}

/// The alpha mode of a rank.
pub open spec fn alpha_mode_of(rank: int) -> AlphaMode {
    if rank >= 2 {
        AlphaMode::Blend
    } else if rank == 1 {
        AlphaMode::Mask
    } else {
        AlphaMode::Opaque
    }
}

/// The alpha mode of a material, and whether it modulates by two.
pub fn compute_blend(mat: &RawMaterial) -> (r: (AlphaMode, bool))
    ensures
        r.0 == alpha_mode_of(blend_rank(mat@)),
        r.1 == (blend_rank(mat@) == 5),
{
    let mut rank: u8 = 0;
    if mat.int_param("F_ALPHA_TEST") > 0 {
        rank = 1;
    }
    let says_so: bool = match mat.red2.translucent {
        Some(t) => t,
        None => false,
    };
    if mat.int_param("F_TRANSLUCENT") == 1 || shader_is_always_translucent(mat.shader.as_str())
        || says_so {
        rank = 2;
    }
    if same(mat.shader.as_str(), "csgo_static_overlay") || same(
        mat.shader.as_str(),
        "csgo_unlitgeneric",
    ) {
        let mode: i64 = mat.int_param("F_BLEND_MODE");
        if mode == 1 {
            rank = 2;
        } else if mode == 2 {
            rank = 1;
        } else if mode == 3 {
            rank = 5;
        } else if mode == 4 {
            rank = 3;
        } else if mode == 5 {
            rank = 4;
        } else if mode == 6 {
            rank = 6;
        }
    }
    let mode: AlphaMode = if rank >= 2 {
        AlphaMode::Blend
    } else if rank == 1 {
        AlphaMode::Mask
    } else {
        AlphaMode::Opaque
    };
    (mode, rank == 5)
}

/// Whether a material takes no light.
pub open spec fn is_unlit(m: RawView) -> bool {
    m.shader == "csgo_unlitgeneric"@ || m.shader == "csgo_black_unlit"@ || m.shader
        == "csgo_effects"@ || m.red2.unlit == Some(true)
}

/// Whether a material takes no light.
pub fn unlit(mat: &RawMaterial) -> (r: bool)
    ensures
        r == is_unlit(mat@),
{
    let says_so: bool = match mat.red2.unlit {
        Some(u) => u,
        None => false,
    };
    same(mat.shader.as_str(), "csgo_unlitgeneric") || same(mat.shader.as_str(), "csgo_black_unlit")
        || same(mat.shader.as_str(), "csgo_effects") || says_so
}

/// The second layer of a layered material: the shader and the exact flag must say so.
pub open spec fn layers_of(m: RawView) -> Option<LayerBlendView> {
    if m.shader != "csgo_lightmappedgeneric"@ || int_of(m, "F_LAYERS"@) != 1 {
        None
    } else {
        Some(
            LayerBlendView {
                layer2_color: texture_of(m, "g_tLayer2Color"@),
                layer2_normal: texture_of(m, "g_tLayer2NormalRoughness"@),
                blend_modulation: if int_of(m, "F_FANCY_BLENDING"@) > 0 {
                    texture_of(m, "g_tBlendModulation"@)
                } else {
                    None
                },
            },
        )
    }
}

/// The second layer of a layered material.
pub fn layers(mat: &RawMaterial) -> (r: Option<LayerBlend>)
    ensures
        opt_view(r) == layers_of(mat@),
{
    if !same(mat.shader.as_str(), "csgo_lightmappedgeneric") || mat.int_param("F_LAYERS") != 1 {
        return None;
    }
    Some(
        LayerBlend {
            layer2_color: mat.texture("g_tLayer2Color"),
            layer2_normal: mat.texture("g_tLayer2NormalRoughness"),
            blend_modulation: if mat.int_param("F_FANCY_BLENDING") > 0 {
                mat.texture("g_tBlendModulation")
            } else {
                None
            },
        },
    )
}

/// The ambient occlusion texture, which one shader names otherwise.
pub open spec fn ao_texture_of(m: RawView) -> Option<Seq<char>> {
    texture_of(
        m,
        if m.shader == "csgo_lightmappedgeneric"@ {
            "g_tLayer1AmbientOcclusion"@
        } else {
            "g_tAmbientOcclusion"@
        },
    )
}

/// The ambient occlusion texture.
pub fn ao_texture(mat: &RawMaterial) -> (r: Option<String>)
    ensures
        crate::text::opt_text(r) == ao_texture_of(mat@),
{
    if same(mat.shader.as_str(), "csgo_lightmappedgeneric") {
        mat.texture("g_tLayer1AmbientOcclusion")
    } else {
        mat.texture("g_tAmbientOcclusion")
    }
}

/// The first layer of an environment shader; none for other shaders.
pub open spec fn env1_of(m: RawView) -> Option<EnvHeightView> {
    if is_environment(m.shader) {
        Some(height_params(m, "1"@))
    } else {
        None
    }
}

/// The first layer of an environment shader.
pub fn env1(mat: &RawMaterial) -> (r: Option<EnvHeightParams>)
    ensures
        opt_view(r) == env1_of(mat@),
{
    if environment(mat.shader.as_str()) {
        Some(env_height_params(mat, "1"))
    } else {
        None
    }
}

/// What the alpha of the base colour texture means.
pub open spec fn alpha_meaning_of(m: RawView, mode: AlphaMode) -> Seq<char> {
    if mode != AlphaMode::Opaque {
        "opacity"@
    } else if is_environment(m.shader) {
        "ao"@
    } else if int_of(m, "F_METALNESS_TEXTURE"@) == 1 {
        "metalness"@
    } else {
        "none"@
    }
}

/// What the alpha of the base colour texture means.
pub fn base_color_alpha_meaning(mat: &RawMaterial, alpha_mode: AlphaMode) -> (r: &'static str)
    ensures
        r@ == alpha_meaning_of(mat@, alpha_mode),
{
    if alpha_mode != AlphaMode::Opaque {
        return "opacity";
    }
    if environment(mat.shader.as_str()) {
        return "ao";
    }
    if mat.int_param("F_METALNESS_TEXTURE") == 1 {
        return "metalness";
    }
    "none"
}

/// The rendering rules of a material, before any tint of an instance.
#[derive(Debug, Clone)]
pub struct ResolvedMaterial {
    pub shader: String,
    pub base_color_texture: Option<String>,
    pub normal_texture: Option<String>,
    /// Plain black, without a base colour texture.
    pub constant_black: bool,
    pub alpha_mode: AlphaMode,
    pub alpha_cutoff: Option<u32>,
    pub double_sided: bool,
    pub unlit: bool,
    /// What the material alone says; an object can be an overlay by itself.
    pub material_says_overlay: bool,
    pub mod2x: bool,
    pub color_tint: Vector3,
    pub model_tint_amount: u32,
    pub tint_mask: bool,
    pub tint_mask_texture: Option<String>,
    pub layers: Option<LayerBlend>,
    pub ao_texture: Option<String>,
    pub metalness: MetalnessSource,
    pub no_specular_at_full_roughness: bool,
    pub fog_enabled: bool,
    pub self_illum: Option<SelfIllum>,
    pub env_layer2: Option<EnvLayer2>,
    pub env1: Option<EnvHeightParams>,
    pub base_color_alpha_meaning: &'static str,
}

/// A [`ResolvedMaterial`] as plain values.
pub struct ResolvedView {
    pub shader: Seq<char>,
    pub base_color_texture: Option<Seq<char>>,
    pub normal_texture: Option<Seq<char>>,
    pub constant_black: bool,
    pub alpha_mode: AlphaMode,
    pub alpha_cutoff: Option<u32>,
    pub double_sided: bool,
    pub unlit: bool,
    pub material_says_overlay: bool,
    pub mod2x: bool,
    pub color_tint: Vector3,
    pub model_tint_amount: u32,
    pub tint_mask: bool,
    pub tint_mask_texture: Option<Seq<char>>,
    pub layers: Option<LayerBlendView>,
    pub ao_texture: Option<Seq<char>>,
    pub metalness: MetalnessView,
    pub no_specular_at_full_roughness: bool,
    pub fog_enabled: bool,
    pub self_illum: Option<SelfIllumView>,
    pub env_layer2: Option<EnvLayer2View>,
    pub env1: Option<EnvHeightView>,
    pub base_color_alpha_meaning: Seq<char>,
}

impl View for ResolvedMaterial {
    type V = ResolvedView;

    open spec fn view(&self) -> ResolvedView {
        ResolvedView {
            shader: self.shader@,
            base_color_texture: crate::text::opt_text(self.base_color_texture),
            normal_texture: crate::text::opt_text(self.normal_texture),
            constant_black: self.constant_black,
            alpha_mode: self.alpha_mode,
            alpha_cutoff: self.alpha_cutoff,
            double_sided: self.double_sided,
            unlit: self.unlit,
            material_says_overlay: self.material_says_overlay,
            mod2x: self.mod2x,
            color_tint: self.color_tint,
            model_tint_amount: self.model_tint_amount,
            tint_mask: self.tint_mask,
            tint_mask_texture: crate::text::opt_text(self.tint_mask_texture),
            layers: opt_view(self.layers),
            ao_texture: crate::text::opt_text(self.ao_texture),
            metalness: self.metalness@,
            no_specular_at_full_roughness: self.no_specular_at_full_roughness,
            fog_enabled: self.fog_enabled,
            self_illum: opt_view(self.self_illum),
            env_layer2: opt_view(self.env_layer2),
            env1: opt_view(self.env1),
            base_color_alpha_meaning: self.base_color_alpha_meaning@,
        }
    }
}

/// The rendering rules of a material.
pub open spec fn resolved(m: RawView) -> ResolvedView {
    let mode = alpha_mode_of(blend_rank(m));
    ResolvedView {
        shader: m.shader,
        base_color_texture: base_color_of(m).0,
        normal_texture: normal_texture_of(m),
        constant_black: base_color_of(m).1,
        alpha_mode: mode,
        alpha_cutoff: if mode == AlphaMode::Mask {
            Some(float_or(m, "g_flAlphaTestReference"@, F32_HALF))
        } else {
            None
        },
        double_sided: int_of(m, "F_RENDER_BACKFACES"@) == 1,
        unlit: is_unlit(m),
        material_says_overlay: int_of(m, "F_OVERLAY"@) == 1 || m.shader == "csgo_static_overlay"@,
        mod2x: blend_rank(m) == 5,
        color_tint: xyz_or(
            m,
            "g_vColorTint"@,
            Vector3 { x: F32_ONE, y: F32_ONE, z: F32_ONE },
        ),
        model_tint_amount: float_or(m, "g_flModelTintAmount"@, F32_ONE),
        tint_mask: int_of(m, "F_TINT_MASK"@) == 1,
        tint_mask_texture: texture_of(m, "g_tTintMask"@),
        layers: layers_of(m),
        ao_texture: ao_texture_of(m),
        metalness: metalness_of(m),
        no_specular_at_full_roughness: int_of(m, "F_NO_SPECULAR_AT_FULL_ROUGHNESS"@) == 1,
        fog_enabled: int_or(m, "g_bFogEnabled"@, 1) != 0,
        self_illum: self_illum_of(m),
        env_layer2: env_layer2_of(m),
        env1: env1_of(m),
        base_color_alpha_meaning: alpha_meaning_of(m, mode),
    }
}

/// Resolves the rendering rules of a material.
pub fn resolve(mat: &RawMaterial) -> (r: ResolvedMaterial)
    ensures
        r@ == resolved(mat@),
{
    let (base_color_texture, constant_black) = pick_base_color_texture(mat);
    let (alpha_mode, mod2x) = compute_blend(mat);
    let alpha_cutoff: Option<u32> = if alpha_mode == AlphaMode::Mask {
        Some(mat.float_or("g_flAlphaTestReference", F32_HALF))
    } else {
        None
    };
    ResolvedMaterial {
        shader: mat.shader.clone(),
        base_color_texture,
        normal_texture: pick_normal_texture(mat),
        constant_black,
        alpha_mode,
        alpha_cutoff,
        double_sided: mat.int_param("F_RENDER_BACKFACES") == 1,
        unlit: unlit(mat),
        material_says_overlay: mat.int_param("F_OVERLAY") == 1 || same(
            mat.shader.as_str(),
            "csgo_static_overlay",
        ),
        mod2x,
        color_tint: mat.xyz_or(
            "g_vColorTint",
            Vector3 { x: F32_ONE, y: F32_ONE, z: F32_ONE },
        ),
        model_tint_amount: mat.float_or("g_flModelTintAmount", F32_ONE),
        tint_mask: mat.int_param("F_TINT_MASK") == 1,
        tint_mask_texture: mat.texture("g_tTintMask"),
        layers: layers(mat),
        ao_texture: ao_texture(mat),
        metalness: metalness(mat),
        no_specular_at_full_roughness: mat.int_param("F_NO_SPECULAR_AT_FULL_ROUGHNESS") == 1,
        fog_enabled: mat.int_or("g_bFogEnabled", 1) != 0,
        self_illum: self_illum(mat),
        env_layer2: env_layer2(mat),
        env1: env1(mat),
        base_color_alpha_meaning: base_color_alpha_meaning(mat, alpha_mode),
    }
}

/// Translucency wins over the alpha test: a material with both is blended, unless its shader has a
/// blend mode of its own that says otherwise.
pub proof fn translucency_wins_over_alpha_test(m: RawView)
    requires
        int_of(m, "F_TRANSLUCENT"@) == 1 || always_translucent(m.shader) || m.red2.translucent
            == Some(true),
        m.shader != "csgo_static_overlay"@ && m.shader != "csgo_unlitgeneric"@ || int_of(
            m,
            "F_BLEND_MODE"@,
        ) == 0,
    ensures
        resolved(m).alpha_mode == AlphaMode::Blend,
{
}

/// A cutoff comes with the mask mode and with no other, a material that modulates by two is
/// blended, and what is not opaque reads its alpha as opacity.
pub proof fn alpha_rules_agree(m: RawView)
    ensures
        resolved(m).alpha_cutoff is Some <==> resolved(m).alpha_mode == AlphaMode::Mask,
        resolved(m).mod2x ==> resolved(m).alpha_mode == AlphaMode::Blend,
        resolved(m).alpha_mode != AlphaMode::Opaque ==> resolved(m).base_color_alpha_meaning
            == "opacity"@,
        resolved(m).constant_black ==> resolved(m).base_color_texture is None,
{
}

} // verus!
