//! What holds of materials that are written in a shader language: their slots have the
//! types that are named, start with the values that are written, and are filled with
//! what a node gives under their names.
use crate::custom_material::{
    alpha_converted, alpha_of, bundled_type, bundled_value, registered_type, registered_value,
    AlphaMode, CustomAlphaMode, CustomMaterial, FieldType, UniformValue,
};
use crate::dynamic::{
    inputs_asked, is_instance, planned, registered, registers, unregistered, DynamicMaterial,
    MaterialRegistration, MaterialShaderId, RegisterPlan, RegistryView,
};
use crate::ids::AssetId;
use crate::list::List;
use crate::material::MaterialAlphaMode;
use crate::palette::MaterialInstance;
use crate::values::F32;
use vstd::prelude::*;

verus! {

proof fn lemma_type_names()
    ensures
        "u32"@.len() == 3 && "i32"@.len() == 3,
        "u32"@[0] == 'u' && "i32"@[0] == 'i',
        "vec2<f32>"@.len() == 9 && "vec3<f32>"@.len() == 9 && "vec4<f32>"@.len() == 9,
        "vec2<f32>"@[3] == '2' && "vec3<f32>"@[3] == '3' && "vec4<f32>"@[3] == '4',
        "vec2<f32>"@[5] == 'f' && "vec3<f32>"@[5] == 'f' && "vec4<f32>"@[5] == 'f',
        "vec2<i32>"@.len() == 9 && "vec3<i32>"@.len() == 9 && "vec4<i32>"@.len() == 9,
        "vec2<i32>"@[3] == '2' && "vec3<i32>"@[3] == '3' && "vec4<i32>"@[3] == '4',
        "vec2<i32>"@[5] == 'i' && "vec3<i32>"@[5] == 'i' && "vec4<i32>"@[5] == 'i',
        "mat3x3<f32>"@.len() == 11 && "mat4x4<f32>"@.len() == 11,
        "mat3x3<f32>"@[3] == '3' && "mat4x4<f32>"@[3] == '4',
        "color3"@.len() == 6 && "color4"@.len() == 6,
        "color3"@[5] == '3' && "color4"@[5] == '4',
        "bool"@.len() == 4,
        "f32"@.len() == 3 && "f32"@[0] == 'f',
{
    reveal_strlit("u32");
    reveal_strlit("i32");
    reveal_strlit("f32");
    reveal_strlit("vec2<f32>");
    reveal_strlit("vec3<f32>");
    reveal_strlit("vec4<f32>");
    reveal_strlit("vec2<i32>");
    reveal_strlit("vec3<i32>");
    reveal_strlit("vec4<i32>");
    reveal_strlit("mat3x3<f32>");
    reveal_strlit("mat4x4<f32>");
    reveal_strlit("color3");
    reveal_strlit("color4");
    reveal_strlit("bool");
}

/// A type goes by its name; whole numbers with a sign, colors and truths are known in a
/// bundle only.
pub proof fn law_types_go_by_their_names()
    ensures
        registered_type("f32"@) == FieldType::F32,
        registered_type("u32"@) == FieldType::U32,
        registered_type("i32"@) == FieldType::U32,
        registered_type("vec2<f32>"@) == FieldType::Vec2,
        registered_type("vec3<f32>"@) == FieldType::Vec3,
        registered_type("vec4<f32>"@) == FieldType::Vec4,
        registered_type("mat3x3<f32>"@) == FieldType::Mat3,
        registered_type("mat4x4<f32>"@) == FieldType::Mat4,
        bundled_type("f32"@) == FieldType::F32,
        bundled_type("u32"@) == FieldType::U32,
        bundled_type("vec2<f32>"@) == FieldType::Vec2,
        bundled_type("vec3<f32>"@) == FieldType::Vec3,
        bundled_type("vec4<f32>"@) == FieldType::Vec4,
        bundled_type("vec2<i32>"@) == FieldType::IVec2,
        bundled_type("vec3<i32>"@) == FieldType::IVec3,
        bundled_type("vec4<i32>"@) == FieldType::IVec4,
        bundled_type("mat3x3<f32>"@) == FieldType::Mat3,
        bundled_type("mat4x4<f32>"@) == FieldType::Mat4,
        bundled_type("color3"@) == FieldType::Color3,
        bundled_type("color4"@) == FieldType::Color4,
        bundled_type("bool"@) == FieldType::Bool,
        forall|s: Seq<char>|
            #[trigger] registered_type(s) != bundled_type(s) ==> s == "vec2<i32>"@ || s
                == "vec3<i32>"@ || s == "vec4<i32>"@ || s == "color3"@ || s == "color4"@ || s
                == "bool"@,
{
    lemma_type_names();
}

/// The number at a place, or zero past the end.
pub open spec fn nth(nums: Seq<F32>, i: int) -> F32 {
    if i < nums.len() {
        nums[i]
    } else {
        F32 { bits: 0 }
    }
}

/// A value is of its type and has the numbers that are written, in order, with zeros for
/// those that are missing.
pub proof fn law_value_has_the_written_numbers(
    ty: FieldType,
    s: Seq<char>,
    nums: Seq<F32>,
    v: UniformValue,
)
    requires
        bundled_value(ty, s, nums, v),
    ensures
        match (ty, v) {
            (FieldType::F32, UniformValue::F32(x)) => x == nth(nums, 0),
            (FieldType::U32, UniformValue::U32(_)) => true,
            (FieldType::Vec2, UniformValue::Vec2(a)) => a.x == nth(nums, 0) && a.y == nth(nums, 1),
            (FieldType::Vec3, UniformValue::Vec3(a)) => a.x == nth(nums, 0) && a.y == nth(nums, 1)
                && a.z == nth(nums, 2),
            (FieldType::Color3, UniformValue::Color3(a)) => a.x == nth(nums, 0) && a.y == nth(
                nums,
                1,
            ) && a.z == nth(nums, 2),
            (FieldType::Vec4, UniformValue::Vec4(a)) => a.x == nth(nums, 0) && a.y == nth(nums, 1)
                && a.z == nth(nums, 2) && a.w == nth(nums, 3),
            (FieldType::Color4, UniformValue::Color4(a)) => a.x == nth(nums, 0) && a.y == nth(
                nums,
                1,
            ) && a.z == nth(nums, 2) && a.w == nth(nums, 3),
            (FieldType::IVec2, UniformValue::IVec2(..)) => true,
            (FieldType::IVec3, UniformValue::IVec3(..)) => true,
            (FieldType::IVec4, UniformValue::IVec4(..)) => true,
            (FieldType::Mat3, UniformValue::Mat3(m)) => m@.len() == 9 && forall|i: int|
                0 <= i < 9 ==> #[trigger] m@[i] == nth(nums, i),
            (FieldType::Mat4, UniformValue::Mat4(m)) => m@.len() == 16 && forall|i: int|
                0 <= i < 16 ==> #[trigger] m@[i] == nth(nums, i),
            (FieldType::Bool, UniformValue::Bool(_)) => true,
            _ => false,
        },
{
}

/// The whole number at a place, or zero past the end.
pub open spec fn nth_whole(ints: Seq<i32>, i: int) -> i32 {
    if i < ints.len() {
        ints[i]
    } else {
        0
    }
}

/// Whole numbers, counts and truths are read from the text itself.
pub proof fn law_whole_value_is_read_from_the_text(
    ty: FieldType,
    s: Seq<char>,
    nums: Seq<F32>,
    v: UniformValue,
)
    requires
        bundled_value(ty, s, nums, v),
    ensures
        ({
            let ints = crate::custom_material::whole_numbers(
                crate::custom_material::comma_pieces(s),
            );
            let t = crate::custom_material::trimmed(s);
            match v {
                UniformValue::U32(n) => match crate::custom_material::plain_number(t) {
                    Some(k) => n == k,
                    None => n == 0,
                },
                UniformValue::IVec2(a, b) => a == nth_whole(ints, 0) && b == nth_whole(ints, 1),
                UniformValue::IVec3(a, b, c) => a == nth_whole(ints, 0) && b == nth_whole(ints, 1)
                    && c == nth_whole(ints, 2),
                UniformValue::IVec4(a, b, c, d) => a == nth_whole(ints, 0) && b == nth_whole(
                    ints,
                    1,
                ) && c == nth_whole(ints, 2) && d == nth_whole(ints, 3),
                UniformValue::Bool(x) => x == (t == "true"@ || t == "1"@),
                _ => true,
            }
        }),
{
}

/// A slot of a registered material starts with the value that is written for it where it
/// is a number or a row of up to four; else with zeros.
pub proof fn law_registered_value_is_written_or_zero(
    ty: FieldType,
    s: Seq<char>,
    nums: Seq<F32>,
    v: UniformValue,
)
    requires
        registered_value(ty, s, nums, v),
    ensures
        ty == FieldType::F32 || ty == FieldType::U32 || ty == FieldType::Vec2 || ty
            == FieldType::Vec3 || ty == FieldType::Vec4 ==> bundled_value(ty, s, nums, v),
        ty == FieldType::Mat3 ==> (v matches UniformValue::Mat3(m) && m@.len() == 9 && forall|i: int|
            0 <= i < 9 ==> #[trigger] m@[i] == (F32 { bits: 0 })),
        ty == FieldType::Mat4 ==> (v matches UniformValue::Mat4(m) && m@.len() == 16 && forall|
            i: int,
        | 0 <= i < 16 ==> #[trigger] m@[i] == (F32 { bits: 0 })),
{
}

/// How a material blends is kept: cut out at its own threshold, mixed, or not at all.
pub proof fn law_blending_is_kept(m: CustomMaterial)
    ensures
        match m.alpha {
            AlphaMode::Opaque => alpha_converted(m.alpha, m.cutoff) == MaterialAlphaMode::Opaque
                && alpha_of(m) == CustomAlphaMode::Opaque,
            AlphaMode::Mask => alpha_converted(m.alpha, m.cutoff) == (MaterialAlphaMode::Mask {
                cutoff: m.cutoff,
            }) && alpha_of(m) == (CustomAlphaMode::Mask { cutoff: m.cutoff }),
            AlphaMode::Blend => alpha_converted(m.alpha, m.cutoff) == MaterialAlphaMode::Blend
                && alpha_of(m) == CustomAlphaMode::Blend,
        },
{
}

/// Whether a row of names holds one.
pub open spec fn names(keys: Seq<String>, key: Seq<char>) -> bool {
    exists|i: int| 0 <= i < keys.len() && (#[trigger] keys[i])@ == key
}

/// A shader takes in what it names, and nothing else.
pub proof fn law_inputs_are_those_that_are_named(keys: Seq<String>)
    ensures
        ({
            let r = inputs_asked(keys);
            &&& r.normals == names(keys, "normals"@)
            &&& r.tangents == names(keys, "tangents"@)
            &&& r.uv == names(keys, "uv"@)
            &&& r.lights == names(keys, "lights"@)
            &&& r.view_dir == names(keys, "view_dir"@)
            &&& r.vertex_color == names(keys, "vertex_color"@)
        }),
{
}

/// A material is registered with its own source, its own slots and how it blends; the
/// cut-out is taken along where it is one.
pub proof fn law_material_is_registered_as_written(
    m: CustomMaterial,
    nums: Seq<List<F32>>,
    r: MaterialRegistration,
    i: int,
)
    requires
        registers(m, nums, r),
    ensures
        r.wgsl_fragment == m.wgsl,
        r.double_sided == m.double_sided,
        r.shader_includes == m.shader_includes,
        r.wgsl_vertex is None,
        m.alpha != AlphaMode::Mask ==> r.alpha_wgsl is None,
        r.alpha_wgsl matches Some(s) ==> s == m.alpha_wgsl,
        r.uniforms@.len() == m.uniforms@.len(),
        r.textures@.len() == m.textures@.len(),
        r.buffers@.len() == m.buffers@.len(),
        0 <= i < m.uniforms@.len() ==> r.uniforms@[i].name == m.uniforms@[i].name
            && r.uniforms@[i].ty == registered_type(m.uniforms@[i].ty@)
            && r.uniform_defaults@[i].type_of() == r.uniforms@[i].ty,
        0 <= i < m.textures@.len() ==> r.textures@[i] == m.textures@[i].name,
        0 <= i < m.buffers@.len() ==> r.buffers@[i] == m.buffers@[i].name,
{
}

/// A node's material shows what the node gives under the name of a slot: a value of the
/// slot's type, a texture, or the words of a buffer. Where it gives none, the value is
/// that of the registration, and there is no texture and no buffer.
pub proof fn law_node_fills_slots_by_name(
    r: MaterialRegistration,
    shader: MaterialShaderId,
    inst: MaterialInstance,
    words: Map<u128, Seq<u32>>,
    m: DynamicMaterial,
    i: int,
)
    requires
        is_instance(r, shader, inst, words, m),
    ensures
        m.shader_id == shader,
        m.alpha_mode == r.alpha_mode,
        m.double_sided == r.double_sided,
        m.values@.len() == r.uniforms@.len(),
        m.textures@.len() == r.textures@.len(),
        m.buffers@.len() == r.buffers@.len(),
        0 <= i < r.uniforms@.len() ==> {
            let name = r.uniforms@[i].name@;
            let own = inst.uniform_overrides@;
            let given = own.contains_key(name) && own[name].type_of() == r.uniforms@[i].ty;
            &&& given ==> m.values@[i] == own[name]
            &&& !given && i < r.uniform_defaults@.len() && r.uniform_defaults@[i].type_of()
                == r.uniforms@[i].ty ==> m.values@[i] == r.uniform_defaults@[i]
            &&& m.values@[i].type_of() == r.uniforms@[i].ty
        },
        0 <= i < r.textures@.len() ==> {
            let own = inst.texture_overrides@;
            &&& own.contains_key(r.textures@[i]@) ==> m.textures@[i] == Some(
                own[r.textures@[i]@],
            )
            &&& !own.contains_key(r.textures@[i]@) ==> m.textures@[i] is None
        },
        0 <= i < r.buffers@.len() ==> {
            let own = inst.buffer_overrides@;
            let name = r.buffers@[i]@;
            let given = own.contains_key(name) && words.contains_key(own[name].0);
            &&& given ==> m.buffers@[i] is Some && (m.buffers@[i]->0)@ == words[own[name].0]
            &&& !given ==> m.buffers@[i] is None
        },
{
    if 0 <= i < r.uniforms@.len() {
        assert(crate::dynamic::instance_value(r, inst, i, m.values@[i]));
    }
    if 0 <= i < r.textures@.len() {
        assert(crate::dynamic::instance_texture(r, inst, i, m.textures@[i]));
    }
    if 0 <= i < r.buffers@.len() {
        assert(crate::dynamic::instance_buffer(r, inst, words, i, m.buffers@[i]));
    }
}

/// A material that is registered is found with its shader and kept as long as nothing of
/// it changes; what is registered for other materials stays. One that is taken out is
/// refused from then on.
pub proof fn law_registration_is_about_one_material(
    v: RegistryView,
    id: AssetId,
    shader: MaterialShaderId,
    hashes: (u64, u64),
    k: u128,
)
    ensures
        ({
            let w = registered(v, id, shader, hashes);
            &&& w.shaders.contains_key(id.0) && w.shaders[id.0] == shader
            &&& w.gone == v.gone
            &&& k != id.0 ==> w.shaders.contains_key(k) == v.shaders.contains_key(k)
                && w.shaders[k] == v.shaders[k]
            &&& !v.gone.contains(id.0) ==> planned(w, id, hashes) == RegisterPlan::Keep(shader)
            &&& forall|other: (u64, u64)|
                other != hashes && !v.gone.contains(id.0) ==> #[trigger] planned(w, id, other)
                    == RegisterPlan::Replace(Some(shader))
        }),
        ({
            let w = unregistered(v, id);
            &&& !w.shaders.contains_key(id.0)
            &&& k != id.0 ==> w.shaders.contains_key(k) == v.shaders.contains_key(k)
                && w.shaders[k] == v.shaders[k] && w.gone.contains(k) == v.gone.contains(k)
            &&& planned(w, id, hashes) == RegisterPlan::Refuse
        }),
{
}

} // verus!
