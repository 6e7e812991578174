//! Custom materials: shader source with declared slots, what they are
//! registered as, and what is written of them into a bundle.
use crate::assets::TextureColorKind;
use crate::find::{first, lemma_first_is};
use crate::ids::AssetId;
use crate::list::{List, Same};
use crate::material::{MaterialAlphaMode, MaterialShading};
use crate::palette::MaterialDef;
use crate::text::{chars_of, is_white, same_text, text_of, white};
use crate::values::{Vec2, Vec3, Vec4, F32};
use vstd::prelude::*;
use vstd::string::*;

verus! {

/// A declared slot: its name, its shader type and its default, as written.
pub struct Slot {
    pub name: String,
    pub ty: String,
    pub val: String,
    pub debug: String,
    pub color_kind: Option<TextureColorKind>,
}

impl Same for Slot {
    fn same(&self) -> (res: Self) {
        Slot {
            name: self.name.clone(),
            ty: self.ty.clone(),
            val: self.val.clone(),
            debug: self.debug.clone(),
            color_kind: self.color_kind,
        }
    }
}

#[derive(Clone, Copy, PartialEq, Eq, Structural, Debug)]
pub enum AlphaMode {
    Opaque,
    Mask,
    Blend,
}

/// The surface mode of a custom material with the cutoff of a masked one.
#[derive(Clone, Copy, PartialEq, Eq, Structural, Debug)]
pub enum CustomAlphaMode {
    Opaque,
    Mask { cutoff: F32 },
    Blend,
}

/// A problem that compiling a material reported.
pub struct CompileError {
    pub line: Option<u32>,
    pub message: String,
}

impl Same for CompileError {
    fn same(&self) -> (res: Self) {
        CompileError { line: self.line, message: self.message.clone() }
    }
}

/// A material of the library.
pub struct CustomMaterial {
    pub id: AssetId,
    pub name: String,
    pub wgsl: String,
    pub alpha_wgsl: String,
    pub vertex_wgsl: String,
    pub alpha: AlphaMode,
    pub cutoff: F32,
    pub double_sided: bool,
    pub color: String,
    pub uniforms: List<Slot>,
    pub textures: List<Slot>,
    pub buffers: List<Slot>,
    pub shader_includes: List<String>,
    pub fragment_inputs: List<String>,
    pub registered: bool,
    pub recompile_rev: u64,
    /// The definition of a built-in material; `None` for one written in WGSL.
    pub builtin: Option<MaterialDef>,
    pub last_diagnostics: List<CompileError>,
}

impl Same for CustomMaterial {
    fn same(&self) -> (res: Self) {
        CustomMaterial {
            id: self.id,
            name: self.name.clone(),
            wgsl: self.wgsl.clone(),
            alpha_wgsl: self.alpha_wgsl.clone(),
            vertex_wgsl: self.vertex_wgsl.clone(),
            alpha: self.alpha,
            cutoff: self.cutoff,
            double_sided: self.double_sided,
            color: self.color.clone(),
            uniforms: self.uniforms.clone(),
            textures: self.textures.clone(),
            buffers: self.buffers.clone(),
            shader_includes: self.shader_includes.clone(),
            fragment_inputs: self.fragment_inputs.clone(),
            registered: self.registered,
            recompile_rev: self.recompile_rev,
            builtin: match &self.builtin {
                Some(d) => Some(d.same()),
                None => None,
            },
            last_diagnostics: self.last_diagnostics.clone(),
        }
    }
}

impl CustomMaterial {
    /// Whether a material is new: named, not registered, with no slots.
    pub open spec fn is_new(self, id: AssetId, name: Seq<char>) -> bool {
        &&& self.id == id
        &&& self.name@ == name
        &&& self.wgsl@.len() == 0
        &&& self.alpha_wgsl@.len() == 0
        &&& self.vertex_wgsl@.len() == 0
        &&& self.alpha == AlphaMode::Opaque
        &&& self.cutoff == (F32 { bits: 0x3F00_0000 })
        &&& !self.double_sided
        &&& self.color@ == "#ffffff"@
        &&& self.uniforms@.len() == 0
        &&& self.textures@.len() == 0
        &&& self.buffers@.len() == 0
        &&& self.shader_includes@.len() == 0
        &&& self.fragment_inputs@.len() == 0
        &&& !self.registered
        &&& self.recompile_rev == 0
        &&& self.last_diagnostics@.len() == 0
    }

    /// A new material written in WGSL.
    pub fn new(id: AssetId, name: String) -> (m: CustomMaterial)
        ensures
            m.is_new(id, name@),
            m.name == name,
            m.builtin is None,
    {
        CustomMaterial {
            id,
            name,
            wgsl: String::new(),
            alpha_wgsl: String::new(),
            vertex_wgsl: String::new(),
            alpha: AlphaMode::Opaque,
            cutoff: F32 { bits: 0x3F00_0000 },
            double_sided: false,
            color: "#ffffff".to_owned(),
            uniforms: List::empty(),
            textures: List::empty(),
            buffers: List::empty(),
            shader_includes: List::empty(),
            fragment_inputs: List::empty(),
            registered: false,
            recompile_rev: 0,
            builtin: None,
            last_diagnostics: List::empty(),
        }
    }

    /// A new built-in material, plain but for its shading.
    pub fn new_builtin(id: AssetId, name: String, shading: MaterialShading) -> (m: CustomMaterial)
        ensures
            m.is_new(id, name@),
            m.name == name,
            m.builtin is Some,
            m.builtin->0.is_plain(shading),
            m.builtin->0.label == name,
    {
        let mut m = CustomMaterial::new(id, name.clone());
        m.builtin = Some(MaterialDef::plain(name, shading));
        m
    }
}

/// The material as a draft again: not registered, and due for compiling.
pub open spec fn drafted(m: CustomMaterial) -> CustomMaterial {
    CustomMaterial {
        registered: false,
        recompile_rev: if m.recompile_rev == u64::MAX {
            0
        } else {
            (m.recompile_rev + 1) as u64
        },
        ..m
    }
}

/// Makes a material a draft again and asks for it to be compiled.
pub fn mark_material_draft(mat: &mut CustomMaterial)
    ensures
        *final(mat) == drafted(*old(mat)),
{
    mat.registered = false;
    mat.recompile_rev = if mat.recompile_rev == u64::MAX {
        0
    } else {
        mat.recompile_rev + 1
    };
}

/// The surface mode of a material, with the cutoff of a masked one.
pub open spec fn alpha_of(m: CustomMaterial) -> CustomAlphaMode {
    match m.alpha {
        AlphaMode::Opaque => CustomAlphaMode::Opaque,
        AlphaMode::Mask => CustomAlphaMode::Mask { cutoff: m.cutoff },
        AlphaMode::Blend => CustomAlphaMode::Blend,
    }
}

/// The surface mode of a material.
pub fn custom_alpha_of(mat: &CustomMaterial) -> (r: CustomAlphaMode)
    ensures
        r == alpha_of(*mat),
{
    match mat.alpha {
        AlphaMode::Opaque => CustomAlphaMode::Opaque,
        AlphaMode::Mask => CustomAlphaMode::Mask { cutoff: mat.cutoff },
        AlphaMode::Blend => CustomAlphaMode::Blend,
    }
}

/// Whether a key is one of the valid ones.
pub open spec fn is_valid_key(valid: Seq<&'static str>, k: Seq<char>) -> bool {
    exists|i: int| 0 <= i < valid.len() && (#[trigger] valid[i])@ == k
}

/// The keys that are valid, in the order given.
pub open spec fn valid_keys(keys: Seq<String>, valid: Seq<&'static str>) -> Seq<String>
    decreases keys.len(),
{
    if keys.len() == 0 {
        seq![]
    } else if is_valid_key(valid, keys.last()@) {
        valid_keys(keys.drop_last(), valid).push(keys.last())
    } else {
        valid_keys(keys.drop_last(), valid)
    }
}

/// Keeps the keys that are valid and drops the others.
pub fn validate_keys(keys: &List<String>, valid: &Vec<&'static str>) -> (r: List<String>)
    ensures
        r@ == valid_keys(keys@, valid@),
{
    let mut out: Vec<String> = Vec::new();
    let mut i: usize = 0;
    while i < keys.len()
        invariant
            i <= keys@.len(),
            out@ == valid_keys(keys@.take(i as int), valid@),
        decreases keys@.len() - i,
    {
        let k = keys.at(i);
        let mut known = false;
        let mut j: usize = 0;
        while j < valid.len()
            invariant
                j <= valid@.len(),
                known == exists|q: int| 0 <= q < j && (#[trigger] valid@[q])@ == k@,
            decreases valid@.len() - j,
        {
            if same_text(k, valid[j]) {
                known = true;
                assert(valid@[j as int]@ == k@);
            }
            j += 1;
        }
        assert(known == is_valid_key(valid@, k@));
        assert(keys@.take(i + 1).drop_last() =~= keys@.take(i as int));
        if known {
            out.push(k.clone());
        }
        i += 1;
    }
    assert(keys@.take(i as int) =~= keys@);
    List::from_vec(out)
}

/// Keys that are all valid stay as they are.
pub proof fn law_valid_keys_stay(keys: Seq<String>, valid: Seq<&'static str>)
    ensures
        valid_keys(valid_keys(keys, valid), valid) == valid_keys(keys, valid),
    decreases keys.len(),
{
    if keys.len() > 0 {
        law_valid_keys_stay(keys.drop_last(), valid);
        if is_valid_key(valid, keys.last()@) {
            let rest = valid_keys(keys.drop_last(), valid);
            assert(rest.push(keys.last()).drop_last() =~= rest);
        }
    }
}

/// The position of the first material with the id, or the number of materials.
pub open spec fn material_at(ms: Seq<CustomMaterial>, id: AssetId) -> int {
    first(ms, is_material(id))
}

/// Whether a material has a given id.
pub open spec fn is_material(id: AssetId) -> spec_fn(CustomMaterial) -> bool {
    |m: CustomMaterial| m.id == id
}

/// The position of the material with the id.
pub fn find_material(ms: &Vec<CustomMaterial>, id: AssetId) -> (r: Option<usize>)
    ensures
        match r {
            Some(i) => i < ms@.len() && material_at(ms@, id) == i && ms@[i as int].id == id,
            None => material_at(ms@, id) == ms@.len(),
        },
{
    let mut i: usize = 0;
    while i < ms.len()
        invariant
            i <= ms@.len(),
            forall|j: int| 0 <= j < i ==> !is_material(id)(#[trigger] ms@[j]),
        decreases ms@.len() - i,
    {
        if ms[i].id == id {
            proof {
                lemma_first_is(ms@, is_material(id), i as int);
            }
            return Some(i);
        }
        i += 1;
    }
    proof {
        lemma_first_is(ms@, is_material(id), i as int);
    }
    None
}

/// The type of a uniform.
#[derive(Clone, Copy, PartialEq, Eq, Structural, Debug)]
pub enum FieldType {
    F32,
    U32,
    Vec2,
    Vec3,
    Vec4,
    IVec2,
    IVec3,
    IVec4,
    Mat3,
    Mat4,
    Color3,
    Color4,
    Bool,
}

/// A value of a uniform.
pub enum UniformValue {
    F32(F32),
    U32(u32),
    Vec2(Vec2),
    Vec3(Vec3),
    Vec4(Vec4),
    IVec2(i32, i32),
    IVec3(i32, i32, i32),
    IVec4(i32, i32, i32, i32),
    Mat3(List<F32>),
    Mat4(List<F32>),
    Color3(Vec3),
    Color4(Vec4),
    Bool(bool),
}

impl Same for UniformValue {
    fn same(&self) -> (res: Self) {
        match self {
            UniformValue::F32(v) => UniformValue::F32(*v),
            UniformValue::U32(v) => UniformValue::U32(*v),
            UniformValue::Vec2(v) => UniformValue::Vec2(*v),
            UniformValue::Vec3(v) => UniformValue::Vec3(*v),
            UniformValue::Vec4(v) => UniformValue::Vec4(*v),
            UniformValue::IVec2(a, b) => UniformValue::IVec2(*a, *b),
            UniformValue::IVec3(a, b, c) => UniformValue::IVec3(*a, *b, *c),
            UniformValue::IVec4(a, b, c, d) => UniformValue::IVec4(*a, *b, *c, *d),
            UniformValue::Mat3(l) => UniformValue::Mat3(l.clone()),
            UniformValue::Mat4(l) => UniformValue::Mat4(l.clone()),
            UniformValue::Color3(v) => UniformValue::Color3(*v),
            UniformValue::Color4(v) => UniformValue::Color4(*v),
            UniformValue::Bool(b) => UniformValue::Bool(*b),
        }
    }
}

impl UniformValue {
    /// The type that a value is of.
    pub open spec fn type_of(self) -> FieldType {
        match self {
            UniformValue::F32(_) => FieldType::F32,
            UniformValue::U32(_) => FieldType::U32,
            UniformValue::Vec2(_) => FieldType::Vec2,
            UniformValue::Vec3(_) => FieldType::Vec3,
            UniformValue::Vec4(_) => FieldType::Vec4,
            UniformValue::IVec2(_, _) => FieldType::IVec2,
            UniformValue::IVec3(_, _, _) => FieldType::IVec3,
            UniformValue::IVec4(_, _, _, _) => FieldType::IVec4,
            UniformValue::Mat3(_) => FieldType::Mat3,
            UniformValue::Mat4(_) => FieldType::Mat4,
            UniformValue::Color3(_) => FieldType::Color3,
            UniformValue::Color4(_) => FieldType::Color4,
            UniformValue::Bool(_) => FieldType::Bool,
        }
    }

    /// The type that a value is of.
    pub fn field_type(&self) -> (r: FieldType)
        ensures
            r == self.type_of(),
    {
        match self {
            UniformValue::F32(_) => FieldType::F32,
            UniformValue::U32(_) => FieldType::U32,
            UniformValue::Vec2(_) => FieldType::Vec2,
            UniformValue::Vec3(_) => FieldType::Vec3,
            UniformValue::Vec4(_) => FieldType::Vec4,
            UniformValue::IVec2(_, _) => FieldType::IVec2,
            UniformValue::IVec3(_, _, _) => FieldType::IVec3,
            UniformValue::IVec4(_, _, _, _) => FieldType::IVec4,
            UniformValue::Mat3(_) => FieldType::Mat3,
            UniformValue::Mat4(_) => FieldType::Mat4,
            UniformValue::Color3(_) => FieldType::Color3,
            UniformValue::Color4(_) => FieldType::Color4,
            UniformValue::Bool(_) => FieldType::Bool,
        }
    }
}

/// The type that a registered slot's written type means. Anything that the
/// renderer does not know as a slot type counts as a single number.
pub open spec fn registered_type(s: Seq<char>) -> FieldType {
    if s == "u32"@ || s == "i32"@ {
        FieldType::U32
    } else if s == "vec2<f32>"@ {
        FieldType::Vec2
    } else if s == "vec3<f32>"@ {
        FieldType::Vec3
    } else if s == "vec4<f32>"@ {
        FieldType::Vec4
    } else if s == "mat3x3<f32>"@ {
        FieldType::Mat3
    } else if s == "mat4x4<f32>"@ {
        FieldType::Mat4
    } else {
        FieldType::F32
    }
}

/// The type that a registered slot's written type means.
pub fn parse_field_type(s: &str) -> (r: FieldType)
    ensures
        r == registered_type(s@),
{
    if same_text(s, "u32") || same_text(s, "i32") {
        FieldType::U32
    } else if same_text(s, "vec2<f32>") {
        FieldType::Vec2
    } else if same_text(s, "vec3<f32>") {
        FieldType::Vec3
    } else if same_text(s, "vec4<f32>") {
        FieldType::Vec4
    } else if same_text(s, "mat3x3<f32>") {
        FieldType::Mat3
    } else if same_text(s, "mat4x4<f32>") {
        FieldType::Mat4
    } else {
        FieldType::F32
    }
}

/// The type that a slot's written type means in a bundle, which also knows
/// whole-number vectors, colours and flags.
pub open spec fn bundled_type(s: Seq<char>) -> FieldType {
    if s == "vec2<i32>"@ {
        FieldType::IVec2
    } else if s == "vec3<i32>"@ {
        FieldType::IVec3
    } else if s == "vec4<i32>"@ {
        FieldType::IVec4
    } else if s == "color3"@ {
        FieldType::Color3
    } else if s == "color4"@ {
        FieldType::Color4
    } else if s == "bool"@ {
        FieldType::Bool
    } else {
        registered_type(s)
    }
}

fn parse_bundled_type(s: &str) -> (r: FieldType)
    ensures
        r == bundled_type(s@),
{
    if same_text(s, "vec2<i32>") {
        FieldType::IVec2
    } else if same_text(s, "vec3<i32>") {
        FieldType::IVec3
    } else if same_text(s, "vec4<i32>") {
        FieldType::IVec4
    } else if same_text(s, "color3") {
        FieldType::Color3
    } else if same_text(s, "color4") {
        FieldType::Color4
    } else if same_text(s, "bool") {
        FieldType::Bool
    } else {
        parse_field_type(s)
    }
}

/// A text without the white space at its front.
pub open spec fn trim_front(s: Seq<char>) -> Seq<char>
    decreases s.len(),
{
    if s.len() > 0 && white(s[0]) {
        trim_front(s.drop_first())
    } else {
        s
    }
}

/// A text without the white space at its end.
pub open spec fn trim_back(s: Seq<char>) -> Seq<char>
    decreases s.len(),
{
    if s.len() > 0 && white(s.last()) {
        trim_back(s.drop_last())
    } else {
        s
    }
}

/// A text without the white space at both ends.
pub open spec fn trimmed(s: Seq<char>) -> Seq<char> {
    trim_back(trim_front(s))
}

fn trim(s: &Vec<char>) -> (r: Vec<char>)
    ensures
        r@ == trimmed(s@),
{
    let mut a: usize = 0;
    assert(s@.skip(0) =~= s@);
    while a < s.len() && is_white(s[a])
        invariant
            a <= s@.len(),
            trim_front(s@) == trim_front(s@.skip(a as int)),
        decreases s@.len() - a,
    {
        assert(s@.skip(a as int).drop_first() =~= s@.skip(a + 1));
        a += 1;
    }
    let ghost front = s@.skip(a as int);
    assert(trim_front(s@) == front);
    let mut b: usize = s.len();
    assert(s@.subrange(a as int, b as int) =~= front);
    while b > a && is_white(s[b - 1])
        invariant
            a <= b <= s@.len(),
            trim_back(front) == trim_back(s@.subrange(a as int, b as int)),
        decreases b,
    {
        assert(s@.subrange(a as int, b as int).drop_last() =~= s@.subrange(a as int, b - 1));
        b -= 1;
    }
    assert(trim_back(front) == s@.subrange(a as int, b as int));
    let mut out: Vec<char> = Vec::new();
    let mut i: usize = a;
    while i < b
        invariant
            a <= i <= b <= s@.len(),
            out@ == s@.subrange(a as int, i as int),
        decreases b - i,
    {
        out.push(s[i]);
        i += 1;
        assert(s@.subrange(a as int, i as int) =~= s@.subrange(a as int, i - 1).push(s@[i - 1]));
    }
    out
}

/// The value of a digit character, or -1.
pub open spec fn digit_value(c: char) -> int {
    if '0' <= c && c <= '9' {
        c as int - '0' as int
    } else {
        -1
    }
}

/// The number that a row of decimal digits spells, where all of it is digits.
pub open spec fn digits_value(s: Seq<char>) -> Option<int>
    decreases s.len(),
{
    if s.len() == 0 {
        Some(0)
    } else {
        match digits_value(s.drop_last()) {
            Some(n) => if digit_value(s.last()) >= 0 {
                Some(n * 10 + digit_value(s.last()))
            } else {
                None
            },
            None => None,
        }
    }
}

/// The whole number that a text spells: a sign or none, then digits, within
/// the given bounds.
pub open spec fn whole_number(s: Seq<char>, lo: int, hi: int) -> Option<int> {
    let signed = s.len() > 0 && (s[0] == '-' || s[0] == '+');
    let body = if signed {
        s.drop_first()
    } else {
        s
    };
    if body.len() == 0 {
        None
    } else {
        match digits_value(body) {
            None => None,
            Some(n) => {
                let v = if signed && s[0] == '-' {
                    -n
                } else {
                    n
                };
                if lo <= v <= hi {
                    Some(v)
                } else {
                    None
                }
            },
        }
    }
}

proof fn lemma_digits_grow(s: Seq<char>, k: int)
    requires
        0 <= k <= s.len(),
        digits_value(s) is Some,
    ensures
        digits_value(s.take(k)) is Some,
        0 <= digits_value(s.take(k))->0 <= digits_value(s)->0,
    decreases s.len() - k,
{
    if k == s.len() {
        assert(s.take(k) =~= s);
        lemma_digits_nonneg(s);
    } else {
        lemma_digits_grow(s, k + 1);
        assert(s.take(k + 1).drop_last() =~= s.take(k));
        lemma_digits_nonneg(s.take(k));
    }
}

proof fn lemma_digits_nonneg(s: Seq<char>)
    ensures
        digits_value(s) matches Some(n) ==> n >= 0,
    decreases s.len(),
{
    if s.len() > 0 {
        lemma_digits_nonneg(s.drop_last());
    }
}

/// Reads a whole number of at most ten digits' worth: below 2^40.
fn read_digits(s: &Vec<char>, from: usize) -> (r: Option<u64>)
    requires
        from < s@.len(),
    ensures
        match r {
            Some(n) => digits_value(s@.skip(from as int)) == Some(n as int),
            None => match digits_value(s@.skip(from as int)) {
                Some(n) => n > 0xFFFF_FFFF,
                None => true,
            },
        },
{
    let ghost body = s@.skip(from as int);
    let mut n: u64 = 0;
    let mut i: usize = from;
    assert(body.take(0) =~= Seq::<char>::empty());
    while i < s.len()
        invariant
            from <= i <= s@.len(),
            body == s@.skip(from as int),
            n <= 0xFFFF_FFFF,
            digits_value(body.take(i - from)) == Some(n as int),
        decreases s@.len() - i,
    {
        let c: char = s[i];
        assert(body.take(i + 1 - from).drop_last() =~= body.take(i - from));
        assert(body.take(i + 1 - from).last() == c);
        let d: u64 = match c {
            '0' => 0,
            '1' => 1,
            '2' => 2,
            '3' => 3,
            '4' => 4,
            '5' => 5,
            '6' => 6,
            '7' => 7,
            '8' => 8,
            '9' => 9,
            _ => {
                proof {
                    assert(digit_value(c) == -1);
                    if digits_value(body) is Some {
                        lemma_digits_grow(body, i + 1 - from);
                    }
                }
                return None;
            },
        };
        assert(digit_value(c) == d);
        n = n * 10 + d;
        if n > 0xFFFF_FFFF {
            proof {
                if digits_value(body) is Some {
                    lemma_digits_grow(body, i + 1 - from);
                }
            }
            return None;
        }
        i += 1;
    }
    assert(body.take(i - from) =~= body);
    Some(n)
}

/// Reads an `i32`, as Rust writes one.
fn parse_i32(s: &Vec<char>) -> (r: Option<i32>)
    ensures
        match r {
            Some(n) => whole_number(s@, i32::MIN as int, i32::MAX as int) == Some(n as int),
            None => whole_number(s@, i32::MIN as int, i32::MAX as int) is None,
        },
{
    if s.len() == 0 {
        return None;
    }
    let minus = s[0] == '-';
    let signed = minus || s[0] == '+';
    let from: usize = if signed {
        1
    } else {
        0
    };
    assert(s@.skip(0) =~= s@);
    assert(s@.skip(1) =~= s@.drop_first());
    if from == s.len() {
        return None;
    }
    match read_digits(s, from) {
        None => None,
        Some(n) => {
            if minus {
                if n <= 0x8000_0000 {
                    let v: i64 = -(n as i64);
                    Some(v as i32)
                } else {
                    None
                }
            } else if n <= 0x7FFF_FFFF {
                Some(n as i32)
            } else {
                None
            }
        },
    }
}

/// Reads a `u32`, as Rust writes one; a minus sign is refused, even before zero.
fn parse_u32(s: &Vec<char>) -> (r: Option<u32>)
    ensures
        r == plain_number(s@),
{
    if s.len() == 0 {
        return None;
    }
    let from: usize = if s[0] == '+' {
        1
    } else {
        0
    };
    assert(s@.skip(0) =~= s@);
    assert(s@.skip(1) =~= s@.drop_first());
    if from == s.len() {
        return None;
    }
    match read_digits(s, from) {
        None => None,
        Some(n) => {
            if n <= 0xFFFF_FFFF {
                Some(n as u32)
            } else {
                None
            }
        },
    }
}

/// The number that a text without a minus sign spells, where it fits.
pub open spec fn plain_number(s: Seq<char>) -> Option<u32> {
    let body = if s.len() > 0 && s[0] == '+' {
        s.drop_first()
    } else {
        s
    };
    if body.len() == 0 {
        None
    } else {
        match digits_value(body) {
            Some(n) => if n <= 0xFFFF_FFFF {
                Some(n as u32)
            } else {
                None
            },
            None => None,
        }
    }
}

/// The pieces of a text between commas.
pub open spec fn comma_pieces(s: Seq<char>) -> Seq<Seq<char>>
    decreases s.len(),
{
    if s.len() == 0 {
        seq![seq![]]
    } else {
        let rest = comma_pieces(s.drop_last());
        if s.last() == ',' {
            rest.push(seq![])
        } else {
            rest.update(rest.len() - 1, rest.last().push(s.last()))
        }
    }
}

/// The whole numbers among the pieces of a comma-separated text, in order.
pub open spec fn whole_numbers(pieces: Seq<Seq<char>>) -> Seq<i32>
    decreases pieces.len(),
{
    if pieces.len() == 0 {
        seq![]
    } else {
        let rest = whole_numbers(pieces.drop_last());
        match whole_number(trimmed(pieces.last()), i32::MIN as int, i32::MAX as int) {
            Some(n) => rest.push(n as i32),
            None => rest,
        }
    }
}

proof fn lemma_pieces_nonempty(s: Seq<char>)
    ensures
        comma_pieces(s).len() > 0,
    decreases s.len(),
{
    if s.len() > 0 {
        lemma_pieces_nonempty(s.drop_last());
    }
}

fn read_whole_numbers(s: &Vec<char>) -> (r: Vec<i32>)
    ensures
        r@ == whole_numbers(comma_pieces(s@)),
{
    let mut out: Vec<i32> = Vec::new();
    let mut piece: Vec<char> = Vec::new();
    let mut i: usize = 0;
    assert(comma_pieces(s@.take(0)).drop_last() =~= Seq::<Seq<char>>::empty());
    while i < s.len()
        invariant
            i <= s@.len(),
            comma_pieces(s@.take(i as int)).len() > 0,
            piece@ == comma_pieces(s@.take(i as int)).last(),
            out@ == whole_numbers(comma_pieces(s@.take(i as int)).drop_last()),
        decreases s@.len() - i,
    {
        let c: char = s[i];
        let ghost was = comma_pieces(s@.take(i as int));
        assert(s@.take(i + 1).drop_last() =~= s@.take(i as int));
        if c == ',' {
            let t = trim(&piece);
            if let Some(n) = parse_i32(&t) {
                out.push(n);
            }
            piece = Vec::new();
            proof {
                assert(was.push(seq![]).drop_last() =~= was);
                assert(was.push(seq![]).last() =~= seq![]);
                assert(piece@ =~= seq![]);
            }
        } else {
            piece.push(c);
            proof {
                let now = was.update(was.len() - 1, was.last().push(c));
                assert(now.drop_last() =~= was.drop_last());
            }
        }
        i += 1;
    }
    assert(s@.take(i as int) =~= s@);
    let t = trim(&piece);
    if let Some(n) = parse_i32(&t) {
        out.push(n);
    }
    out
}

/// The number at `i`, or zero.
pub open spec fn num(nums: Seq<F32>, i: int) -> F32 {
    if 0 <= i < nums.len() {
        nums[i]
    } else {
        F32::zero()
    }
}

/// The whole number at `i`, or zero.
pub open spec fn whole(nums: Seq<i32>, i: int) -> i32 {
    if 0 <= i < nums.len() {
        nums[i]
    } else {
        0
    }
}

/// The first `n` numbers, filled up with zeros.
pub open spec fn nums_padded(nums: Seq<F32>, n: nat) -> Seq<F32> {
    Seq::new(n, |i: int| num(nums, i))
}

/// Whether a value is what a default text means for a bundled slot. `nums` are
/// the numbers among the pieces of the text.
pub open spec fn bundled_value(ty: FieldType, s: Seq<char>, nums: Seq<F32>, v: UniformValue) -> bool {
    let ints = whole_numbers(comma_pieces(s));
    match ty {
        FieldType::F32 => v == UniformValue::F32(num(nums, 0)),
        FieldType::U32 => v == UniformValue::U32(
            match plain_number(trimmed(s)) {
                Some(n) => n,
                None => 0,
            },
        ),
        FieldType::Vec2 => v == UniformValue::Vec2(Vec2 { x: num(nums, 0), y: num(nums, 1) }),
        FieldType::Vec3 => v == UniformValue::Vec3(
            Vec3 { x: num(nums, 0), y: num(nums, 1), z: num(nums, 2) },
        ),
        FieldType::Vec4 => v == UniformValue::Vec4(
            Vec4 { x: num(nums, 0), y: num(nums, 1), z: num(nums, 2), w: num(nums, 3) },
        ),
        FieldType::IVec2 => v == UniformValue::IVec2(whole(ints, 0), whole(ints, 1)),
        FieldType::IVec3 => v == UniformValue::IVec3(
            whole(ints, 0),
            whole(ints, 1),
            whole(ints, 2),
        ),
        FieldType::IVec4 => v == UniformValue::IVec4(
            whole(ints, 0),
            whole(ints, 1),
            whole(ints, 2),
            whole(ints, 3),
        ),
        FieldType::Mat3 => v matches UniformValue::Mat3(l) && l@ == nums_padded(nums, 9),
        FieldType::Mat4 => v matches UniformValue::Mat4(l) && l@ == nums_padded(nums, 16),
        FieldType::Color3 => v == UniformValue::Color3(
            Vec3 { x: num(nums, 0), y: num(nums, 1), z: num(nums, 2) },
        ),
        FieldType::Color4 => v == UniformValue::Color4(
            Vec4 { x: num(nums, 0), y: num(nums, 1), z: num(nums, 2), w: num(nums, 3) },
        ),
        FieldType::Bool => v == UniformValue::Bool(
            trimmed(s) == "true"@ || trimmed(s) == "1"@,
        ),
    }
}

fn num_at(nums: &List<F32>, i: usize) -> (r: F32)
    ensures
        r == num(nums@, i as int),
{
    if i < nums.len() {
        *nums.at(i)
    } else {
        F32::zero()
    }
}

fn whole_at(nums: &Vec<i32>, i: usize) -> (r: i32)
    ensures
        r == whole(nums@, i as int),
{
    if i < nums.len() {
        nums[i]
    } else {
        0
    }
}

fn padded(nums: &List<F32>, n: usize) -> (r: List<F32>)
    ensures
        r@ == nums_padded(nums@, n as nat),
{
    let mut out: Vec<F32> = Vec::new();
    let mut i: usize = 0;
    while i < n
        invariant
            i <= n,
            out@ == nums_padded(nums@, i as nat),
        decreases n - i,
    {
        out.push(num_at(nums, i));
        i += 1;
        assert(out@ =~= nums_padded(nums@, i as nat));
    }
    List::from_vec(out)
}

/// What a default text means for a bundled slot. `nums` are the numbers among
/// the pieces of the text between commas, as the caller read them.
pub fn parse_bundled_value(ty: FieldType, s: &str, nums: &List<F32>) -> (v: UniformValue)
    ensures
        bundled_value(ty, s@, nums@, v),
{
    let chars = chars_of(s);
    match ty {
        FieldType::F32 => UniformValue::F32(num_at(nums, 0)),
        FieldType::U32 => {
            let t = trim(&chars);
            match parse_u32(&t) {
                Some(n) => UniformValue::U32(n),
                None => UniformValue::U32(0),
            }
        },
        FieldType::Vec2 => UniformValue::Vec2(Vec2 { x: num_at(nums, 0), y: num_at(nums, 1) }),
        FieldType::Vec3 => UniformValue::Vec3(
            Vec3 { x: num_at(nums, 0), y: num_at(nums, 1), z: num_at(nums, 2) },
        ),
        FieldType::Vec4 => UniformValue::Vec4(
            Vec4 { x: num_at(nums, 0), y: num_at(nums, 1), z: num_at(nums, 2), w: num_at(nums, 3) },
        ),
        FieldType::IVec2 => {
            let n = read_whole_numbers(&chars);
            UniformValue::IVec2(whole_at(&n, 0), whole_at(&n, 1))
        },
        FieldType::IVec3 => {
            let n = read_whole_numbers(&chars);
            UniformValue::IVec3(whole_at(&n, 0), whole_at(&n, 1), whole_at(&n, 2))
        },
        FieldType::IVec4 => {
            let n = read_whole_numbers(&chars);
            UniformValue::IVec4(
                whole_at(&n, 0),
                whole_at(&n, 1),
                whole_at(&n, 2),
                whole_at(&n, 3),
            )
        },
        FieldType::Mat3 => UniformValue::Mat3(padded(nums, 9)),
        FieldType::Mat4 => UniformValue::Mat4(padded(nums, 16)),
        FieldType::Color3 => UniformValue::Color3(
            Vec3 { x: num_at(nums, 0), y: num_at(nums, 1), z: num_at(nums, 2) },
        ),
        FieldType::Color4 => UniformValue::Color4(
            Vec4 { x: num_at(nums, 0), y: num_at(nums, 1), z: num_at(nums, 2), w: num_at(nums, 3) },
        ),
        FieldType::Bool => {
            let t = trim(&chars);
            let word = text_of(&t, 0, t.len());
            assert(word@ =~= t@);
            UniformValue::Bool(same_text(&word, "true") || same_text(&word, "1"))
        },
    }
}

/// Whether a value is the zero of a type.
pub open spec fn is_zero_of(ty: FieldType, v: UniformValue) -> bool {
    bundled_value(ty, seq![], seq![], v)
}

/// Whether a value is what a default text means for a registered slot: numbers
/// and vectors are read, a matrix starts at zero.
pub open spec fn registered_value(
    ty: FieldType,
    s: Seq<char>,
    nums: Seq<F32>,
    v: UniformValue,
) -> bool {
    match ty {
        FieldType::F32
        | FieldType::U32
        | FieldType::Vec2
        | FieldType::Vec3
        | FieldType::Vec4 => bundled_value(ty, s, nums, v),
        _ => is_zero_of(ty, v),
    }
}

/// The zero of a type.
pub fn default_value_for(ty: FieldType) -> (v: UniformValue)
    ensures
        is_zero_of(ty, v),
        v.type_of() == ty,
{
    let none: List<F32> = List::empty();
    let empty = String::new();
    assert(empty@ =~= seq![]);
    assert(none@ =~= seq![]);
    parse_bundled_value(ty, &empty, &none)
}

/// What a default text means for a registered slot.
pub fn parse_uniform_value(ty: FieldType, val: &str, nums: &List<F32>) -> (v: UniformValue)
    ensures
        registered_value(ty, val@, nums@, v),
        v.type_of() == ty,
{
    match ty {
        FieldType::F32
        | FieldType::U32
        | FieldType::Vec2
        | FieldType::Vec3
        | FieldType::Vec4 => parse_bundled_value(ty, val, nums),
        _ => default_value_for(ty),
    }
}

/// The value that a declared slot starts with.
pub fn slot_default_value(slot: &Slot, nums: &List<F32>) -> (v: UniformValue)
    ensures
        registered_value(registered_type(slot.ty@), slot.val@, nums@, v),
        v.type_of() == registered_type(slot.ty@),
{
    let ty = parse_field_type(&slot.ty);
    parse_uniform_value(ty, &slot.val, nums)
}

/// A uniform of a bundled material.
pub struct UniformField {
    pub name: String,
    pub ty: FieldType,
    pub default: UniformValue,
}

/// A custom material as a bundle stores it. Texture and buffer slots have no
/// defaults.
pub struct MaterialDefinition {
    pub name: String,
    pub version: u32,
    pub alpha_mode: MaterialAlphaMode,
    pub double_sided: bool,
    pub uniforms: Vec<UniformField>,
    pub textures: Vec<String>,
    pub buffers: Vec<String>,
    pub shader_includes: List<String>,
    pub fragment_inputs: List<String>,
}

/// The surface mode of a material, as a renderer takes it.
pub open spec fn alpha_converted(a: AlphaMode, cutoff: F32) -> MaterialAlphaMode {
    match a {
        AlphaMode::Opaque => MaterialAlphaMode::Opaque,
        AlphaMode::Mask => MaterialAlphaMode::Mask { cutoff },
        AlphaMode::Blend => MaterialAlphaMode::Blend,
    }
}

/// The surface mode of a material, as a renderer takes it.
pub fn convert_alpha(a: AlphaMode, cutoff: F32) -> (r: MaterialAlphaMode)
    ensures
        r == alpha_converted(a, cutoff),
{
    match a {
        AlphaMode::Opaque => MaterialAlphaMode::Opaque,
        AlphaMode::Mask => MaterialAlphaMode::Mask { cutoff },
        AlphaMode::Blend => MaterialAlphaMode::Blend,
    }
}

pub(crate) fn slot_names(slots: &List<Slot>) -> (r: Vec<String>)
    ensures
        r@.len() == slots@.len(),
        forall|i: int| 0 <= i < slots@.len() ==> #[trigger] r@[i] == slots@[i].name,
{
    let mut out: Vec<String> = Vec::new();
    let mut i: usize = 0;
    while i < slots.len()
        invariant
            i <= slots@.len(),
            out@.len() == i,
            forall|j: int| 0 <= j < i ==> #[trigger] out@[j] == slots@[j].name,
        decreases slots@.len() - i,
    {
        out.push(slots.at(i).name.clone());
        i += 1;
    }
    out
}

/// Numbers of the slot at `i`, as the caller read them from its default text.
pub open spec fn slot_nums(nums: Seq<List<F32>>, i: int) -> Seq<F32> {
    if 0 <= i < nums.len() {
        nums[i]@
    } else {
        seq![]
    }
}

pub(crate) fn slot_nums_at(nums: &Vec<List<F32>>, i: usize) -> (r: List<F32>)
    ensures
        r@ == slot_nums(nums@, i as int),
{
    if i < nums.len() {
        nums[i].clone()
    } else {
        List::empty()
    }
}

/// What a bundle stores of a custom material. `nums` holds, for each uniform,
/// the numbers among the pieces of its default text.
pub fn material_definition(mat: &CustomMaterial, nums: &Vec<List<F32>>) -> (d: MaterialDefinition)
    ensures
        d.name == mat.name,
        d.version == 1,
        d.alpha_mode == alpha_converted(mat.alpha, mat.cutoff),
        d.double_sided == mat.double_sided,
        d.uniforms@.len() == mat.uniforms@.len(),
        forall|i: int|
            0 <= i < mat.uniforms@.len() ==> {
                &&& (#[trigger] d.uniforms@[i]).name == mat.uniforms@[i].name
                &&& d.uniforms@[i].ty == bundled_type(mat.uniforms@[i].ty@)
                &&& bundled_value(
                    bundled_type(mat.uniforms@[i].ty@),
                    mat.uniforms@[i].val@,
                    slot_nums(nums@, i),
                    d.uniforms@[i].default,
                )
            },
        d.textures@.len() == mat.textures@.len(),
        forall|i: int|
            0 <= i < mat.textures@.len() ==> #[trigger] d.textures@[i] == mat.textures@[i].name,
        d.buffers@.len() == mat.buffers@.len(),
        forall|i: int|
            0 <= i < mat.buffers@.len() ==> #[trigger] d.buffers@[i] == mat.buffers@[i].name,
        d.shader_includes == mat.shader_includes,
        d.fragment_inputs == mat.fragment_inputs,
{
    let mut uniforms: Vec<UniformField> = Vec::new();
    let mut i: usize = 0;
    while i < mat.uniforms.len()
        invariant
            i <= mat.uniforms@.len(),
            uniforms@.len() == i,
            forall|j: int|
                0 <= j < i ==> {
                    &&& (#[trigger] uniforms@[j]).name == mat.uniforms@[j].name
                    &&& uniforms@[j].ty == bundled_type(mat.uniforms@[j].ty@)
                    &&& bundled_value(
                        bundled_type(mat.uniforms@[j].ty@),
                        mat.uniforms@[j].val@,
                        slot_nums(nums@, j),
                        uniforms@[j].default,
                    )
                },
        decreases mat.uniforms@.len() - i,
    {
        let u = mat.uniforms.at(i);
        let ty = parse_bundled_type(&u.ty);
        let default = parse_bundled_value(ty, &u.val, &slot_nums_at(nums, i));
        uniforms.push(UniformField { name: u.name.clone(), ty, default });
        i += 1;
    }
    MaterialDefinition {
        name: mat.name.clone(),
        version: 1,
        alpha_mode: convert_alpha(mat.alpha, mat.cutoff),
        double_sided: mat.double_sided,
        uniforms,
        textures: slot_names(&mat.textures),
        buffers: slot_names(&mat.buffers),
        shader_includes: mat.shader_includes.clone(),
        fragment_inputs: mat.fragment_inputs.clone(),
    }
}

} // verus!
