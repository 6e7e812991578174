//! Custom materials on their way to the renderer: what is registered of one, when
//! it is registered again, and what a mesh that renders with it starts from.
use crate::buffer_cache::BufferCache;
use crate::custom_material::{
    alpha_converted, convert_alpha, default_value_for, is_zero_of, parse_field_type,
    parse_uniform_value, registered_type, registered_value, slot_nums, slot_nums_at, AlphaMode,
    CustomMaterial, FieldType, Slot, UniformValue,
};
use crate::ids::{hyphenated, id_text, AssetId};
use crate::list::{List, Same};
use crate::material::{MaterialAlphaMode, TextureRef};
use crate::palette::MaterialInstance;
use crate::table::{SlotMap, Table};
use crate::text::{digit_char, any_ink, decimal, decimal_text, has_ink, joined, joined3, same_text};
use crate::values::F32;
use std::collections::hash_map::DefaultHasher;
use std::hash::Hasher;
use vstd::prelude::*;
use vstd::std_specs::hash::DefaultHasherAdditionalSpecFns;
use vstd::utf8::encode_utf8;

verus! {

/// What a text adds to a hash: its bytes and a byte that ends it.
pub open spec fn text_chunks(s: Seq<char>) -> Seq<Seq<u8>> {
    seq![encode_utf8(s), seq![0xffu8]]
}

fn feed(h: &mut DefaultHasher, s: &str)
    ensures
        final(h)@ == old(h)@ + text_chunks(s@),
{
    let ghost before = h@;
    h.write(s.as_bytes());
    let end: [u8; 1] = [0xff];
    h.write(&end);
    assert(end@ =~= seq![0xffu8]);
    assert(h@ =~= before + text_chunks(s@));
}

/// The hash of a text.
pub fn hash_str(s: &str) -> (r: u64)
    ensures
        r == DefaultHasher::spec_finish(text_chunks(s@)),
{
    let mut h = DefaultHasher::new();
    feed(&mut h, s);
    assert(h@ =~= text_chunks(s@));
    h.finish()
}

/// What the names and types of uniform slots add to a hash.
pub open spec fn uniform_chunks(slots: Seq<Slot>) -> Seq<Seq<u8>>
    decreases slots.len(),
{
    if slots.len() == 0 {
        seq![]
    } else {
        uniform_chunks(slots.drop_last()) + text_chunks(slots.last().name@) + text_chunks(
            slots.last().ty@,
        )
    }
}

/// What the names of slots add to a hash.
pub open spec fn name_chunks(slots: Seq<Slot>) -> Seq<Seq<u8>>
    decreases slots.len(),
{
    if slots.len() == 0 {
        seq![]
    } else {
        name_chunks(slots.drop_last()) + text_chunks(slots.last().name@)
    }
}

/// What the layout of a material is hashed from: its name and its slots.
pub open spec fn layout_chunks(m: CustomMaterial) -> Seq<Seq<u8>> {
    text_chunks(m.name@) + uniform_chunks(m.uniforms@) + name_chunks(m.textures@) + name_chunks(
        m.buffers@,
    )
}

fn feed_uniforms(h: &mut DefaultHasher, slots: &List<Slot>)
    ensures
        final(h)@ == old(h)@ + uniform_chunks(slots@),
{
    let ghost before = h@;
    let mut i: usize = 0;
    assert(h@ =~= before + uniform_chunks(slots@.take(0)));
    while i < slots.len()
        invariant
            i <= slots@.len(),
            h@ == before + uniform_chunks(slots@.take(i as int)),
        decreases slots@.len() - i,
    {
        assert(slots@.take(i + 1).drop_last() =~= slots@.take(i as int));
        assert(slots@.take(i + 1).last() == slots@[i as int]);
        let slot = slots.at(i);
        feed(h, &slot.name);
        feed(h, &slot.ty);
        i += 1;
        assert(h@ =~= before + uniform_chunks(slots@.take(i as int)));
    }
    assert(slots@.take(i as int) =~= slots@);
}

fn feed_names(h: &mut DefaultHasher, slots: &List<Slot>)
    ensures
        final(h)@ == old(h)@ + name_chunks(slots@),
{
    let ghost before = h@;
    let mut i: usize = 0;
    assert(h@ =~= before + name_chunks(slots@.take(0)));
    while i < slots.len()
        invariant
            i <= slots@.len(),
            h@ == before + name_chunks(slots@.take(i as int)),
        decreases slots@.len() - i,
    {
        assert(slots@.take(i + 1).drop_last() =~= slots@.take(i as int));
        assert(slots@.take(i + 1).last() == slots@[i as int]);
        let slot = slots.at(i);
        feed(h, &slot.name);
        i += 1;
        assert(h@ =~= before + name_chunks(slots@.take(i as int)));
    }
    assert(slots@.take(i as int) =~= slots@);
}

/// The hash of the layout of a material.
pub fn layout_hash(mat: &CustomMaterial) -> (r: u64)
    ensures
        r == DefaultHasher::spec_finish(layout_chunks(*mat)),
{
    let mut h = DefaultHasher::new();
    feed(&mut h, &mat.name);
    feed_uniforms(&mut h, &mat.uniforms);
    feed_names(&mut h, &mat.textures);
    feed_names(&mut h, &mat.buffers);
    assert(h@ =~= layout_chunks(*mat));
    h.finish()
}

/// A surface mode in words; a cutoff by its bits.
pub open spec fn alpha_text(a: MaterialAlphaMode) -> Seq<char> {
    match a {
        MaterialAlphaMode::Opaque => "Opaque"@,
        MaterialAlphaMode::Mask { cutoff } => "Mask "@ + decimal(cutoff.bits as nat),
        MaterialAlphaMode::Blend => "Blend"@,
    }
}

fn alpha_words(a: MaterialAlphaMode) -> (r: String)
    ensures
        r@ == alpha_text(a),
{
    match a {
        MaterialAlphaMode::Opaque => "Opaque".to_owned(),
        MaterialAlphaMode::Mask { cutoff } => joined("Mask ", &decimal_text(cutoff.bits as u64)),
        MaterialAlphaMode::Blend => "Blend".to_owned(),
    }
}

/// Keys one after the other, each behind a comma.
pub open spec fn key_text(keys: Seq<String>) -> Seq<char>
    decreases keys.len(),
{
    if keys.len() == 0 {
        seq![]
    } else {
        key_text(keys.drop_last()) + ","@ + keys.last()@
    }
}

fn key_words(keys: &List<String>) -> (r: String)
    ensures
        r@ == key_text(keys@),
{
    let mut out = String::new();
    let mut i: usize = 0;
    assert(out@ =~= key_text(keys@.take(0)));
    while i < keys.len()
        invariant
            i <= keys@.len(),
            out@ == key_text(keys@.take(i as int)),
        decreases keys@.len() - i,
    {
        assert(keys@.take(i + 1).drop_last() =~= keys@.take(i as int));
        assert(keys@.take(i + 1).last() == keys@[i as int]);
        out = joined3(&out, ",", keys.at(i));
        i += 1;
    }
    assert(keys@.take(i as int) =~= keys@);
    out
}

/// Everything but the layout that changes what a material compiles to: the two
/// sources, the surface mode, the faces, and what the source asks for.
pub open spec fn source_text(m: CustomMaterial) -> Seq<char> {
    m.wgsl@ + "\u{0}alpha_mode="@ + alpha_text(alpha_converted(m.alpha, m.cutoff)) + (
    "\u{0}alpha_wgsl="@ + m.alpha_wgsl@ + face_text(m.double_sided)) + ("\u{0}includes="@ + key_text(m.shader_includes@)) + ("\u{0}inputs="@ + key_text(
        m.fragment_inputs@,
    ))
}

fn source_words(m: &CustomMaterial) -> (r: String)
    ensures
        r@ == source_text(*m),
{
    let alpha = alpha_words(convert_alpha(m.alpha, m.cutoff));
    let head = joined3(&m.wgsl, "\u{0}alpha_mode=", &alpha);
    let faces = if m.double_sided {
        "\u{0}double_sided"
    } else {
        "\u{0}"
    };
    let body = joined3("\u{0}alpha_wgsl=", &m.alpha_wgsl, faces);
    let includes = joined("\u{0}includes=", &key_words(&m.shader_includes));
    let inputs = joined("\u{0}inputs=", &key_words(&m.fragment_inputs));
    joined(&joined3(&head, &body, &includes), &inputs)
}

/// What a fragment source reads of its surroundings.
#[derive(Clone, Copy, PartialEq, Eq, Structural, Debug)]
pub struct FragmentInputs {
    pub normals: bool,
    pub tangents: bool,
    pub uv: bool,
    pub lights: bool,
    pub view_dir: bool,
    pub vertex_color: bool,
}

/// Whether a key is among others.
pub open spec fn has_key_text(keys: Seq<String>, key: Seq<char>) -> bool {
    exists|i: int| 0 <= i < keys.len() && (#[trigger] keys[i])@ == key
}

/// The inputs that keys ask for; a key that means nothing is passed over.
pub open spec fn inputs_asked(keys: Seq<String>) -> FragmentInputs {
    FragmentInputs {
        normals: has_key_text(keys, "normals"@),
        tangents: has_key_text(keys, "tangents"@),
        uv: has_key_text(keys, "uv"@),
        lights: has_key_text(keys, "lights"@),
        view_dir: has_key_text(keys, "view_dir"@),
        vertex_color: has_key_text(keys, "vertex_color"@),
    }
}

fn asks_for(keys: &List<String>, key: &str) -> (r: bool)
    ensures
        r == has_key_text(keys@, key@),
{
    let mut i: usize = 0;
    while i < keys.len()
        invariant
            i <= keys@.len(),
            forall|j: int| 0 <= j < i ==> (#[trigger] keys@[j])@ != key@,
        decreases keys@.len() - i,
    {
        if same_text(keys.at(i), key) {
            return true;
        }
        i += 1;
    }
    false
}

/// The inputs that keys ask for.
pub fn inputs_from_keys(keys: &List<String>) -> (r: FragmentInputs)
    ensures
        r == inputs_asked(keys@),
{
    FragmentInputs {
        normals: asks_for(keys, "normals"),
        tangents: asks_for(keys, "tangents"),
        uv: asks_for(keys, "uv"),
        lights: asks_for(keys, "lights"),
        view_dir: asks_for(keys, "view_dir"),
        vertex_color: asks_for(keys, "vertex_color"),
    }
}

/// A uniform of a registered layout.
pub struct UniformFieldRuntime {
    pub name: String,
    pub ty: FieldType,
}

/// What the renderer is given of a custom material.
pub struct MaterialRegistration {
    /// The id of the material, which a new name does not change.
    pub name: String,
    pub alpha_mode: MaterialAlphaMode,
    pub double_sided: bool,
    pub uniforms: Vec<UniformFieldRuntime>,
    pub textures: Vec<String>,
    pub buffers: Vec<String>,
    pub layout_hash: u64,
    pub wgsl_hash: u64,
    pub wgsl_fragment: String,
    pub uniform_defaults: Vec<UniformValue>,
    pub shader_includes: List<String>,
    pub fragment_inputs: FragmentInputs,
    /// The source of the cut-out, for a masked material that has one.
    pub alpha_wgsl: Option<String>,
    pub wgsl_vertex: Option<String>,
}

/// Whether a registration is that of a material. `nums` holds, for each uniform,
/// the numbers among the pieces of its default text.
pub open spec fn registers(m: CustomMaterial, nums: Seq<List<F32>>, r: MaterialRegistration) -> bool {
    &&& r.name@ == hyphenated(m.id.0)
    &&& r.alpha_mode == alpha_converted(m.alpha, m.cutoff)
    &&& r.double_sided == m.double_sided
    &&& r.uniforms@.len() == m.uniforms@.len()
    &&& r.uniform_defaults@.len() == m.uniforms@.len()
    &&& forall|i: int|
        0 <= i < m.uniforms@.len() ==> {
            let slot = m.uniforms@[i];
            &&& (#[trigger] r.uniforms@[i]).name == slot.name
            &&& r.uniforms@[i].ty == registered_type(slot.ty@)
        }
    &&& forall|i: int|
        0 <= i < m.uniforms@.len() ==> registered_value(
            registered_type(m.uniforms@[i].ty@),
            m.uniforms@[i].val@,
            slot_nums(nums, i),
            #[trigger] r.uniform_defaults@[i],
        ) && r.uniform_defaults@[i].type_of() == registered_type(m.uniforms@[i].ty@)
    &&& r.textures@.len() == m.textures@.len()
    &&& forall|i: int|
        0 <= i < m.textures@.len() ==> #[trigger] r.textures@[i] == m.textures@[i].name
    &&& r.buffers@.len() == m.buffers@.len()
    &&& forall|i: int| 0 <= i < m.buffers@.len() ==> #[trigger] r.buffers@[i] == m.buffers@[i].name
    &&& r.layout_hash == DefaultHasher::spec_finish(layout_chunks(m))
    &&& r.wgsl_hash == DefaultHasher::spec_finish(text_chunks(source_text(m)))
    &&& r.wgsl_fragment == m.wgsl
    &&& r.shader_includes == m.shader_includes
    &&& r.fragment_inputs == inputs_asked(m.fragment_inputs@)
    &&& r.alpha_wgsl == if m.alpha == AlphaMode::Mask && has_ink(m.alpha_wgsl@) {
        Some(m.alpha_wgsl)
    } else {
        None
    }
    &&& r.wgsl_vertex is None
}

/// What the renderer is given of a custom material.
pub fn build_registration(mat: &CustomMaterial, nums: &Vec<List<F32>>) -> (r: MaterialRegistration)
    ensures
        registers(*mat, nums@, r),
{
    let mut uniforms: Vec<UniformFieldRuntime> = Vec::new();
    let mut defaults: Vec<UniformValue> = Vec::new();
    let mut i: usize = 0;
    while i < mat.uniforms.len()
        invariant
            i <= mat.uniforms@.len(),
            uniforms@.len() == i,
            defaults@.len() == i,
            forall|j: int|
                0 <= j < i ==> {
                    &&& (#[trigger] uniforms@[j]).name == mat.uniforms@[j].name
                    &&& uniforms@[j].ty == registered_type(mat.uniforms@[j].ty@)
                },
            forall|j: int|
                0 <= j < i ==> registered_value(
                    registered_type(mat.uniforms@[j].ty@),
                    mat.uniforms@[j].val@,
                    slot_nums(nums@, j),
                    #[trigger] defaults@[j],
                ) && defaults@[j].type_of() == registered_type(mat.uniforms@[j].ty@),
        decreases mat.uniforms@.len() - i,
    {
        let slot = mat.uniforms.at(i);
        let ty = parse_field_type(&slot.ty);
        defaults.push(parse_uniform_value(ty, &slot.val, &slot_nums_at(nums, i)));
        uniforms.push(UniformFieldRuntime { name: slot.name.clone(), ty });
        i += 1;
    }
    let masked = match mat.alpha {
        AlphaMode::Mask => any_ink(&mat.alpha_wgsl),
        _ => false,
    };
    MaterialRegistration {
        name: id_text(mat.id.0),
        alpha_mode: convert_alpha(mat.alpha, mat.cutoff),
        double_sided: mat.double_sided,
        uniforms,
        textures: crate::custom_material::slot_names(&mat.textures),
        buffers: crate::custom_material::slot_names(&mat.buffers),
        layout_hash: layout_hash(mat),
        wgsl_hash: hash_str(&source_words(mat)),
        wgsl_fragment: mat.wgsl.clone(),
        uniform_defaults: defaults,
        shader_includes: mat.shader_includes.clone(),
        fragment_inputs: inputs_from_keys(&mat.fragment_inputs),
        alpha_wgsl: if masked {
            Some(mat.alpha_wgsl.clone())
        } else {
            None
        },
        wgsl_vertex: None,
    }
}

/// Registering a material again after nothing of its sources, surface, faces or
/// keys changed finds the same hash, whatever became of its id, its colour or
/// its state.
pub proof fn law_same_source_same_hash(a: CustomMaterial, b: CustomMaterial)
    requires
        a.wgsl@ == b.wgsl@,
        a.alpha_wgsl@ == b.alpha_wgsl@,
        a.alpha == b.alpha,
        a.cutoff == b.cutoff,
        a.double_sided == b.double_sided,
        a.shader_includes@ == b.shader_includes@,
        a.fragment_inputs@ == b.fragment_inputs@,
    ensures
        source_text(a) == source_text(b),
{
}

proof fn lemma_middle<T>(front: Seq<T>, a: Seq<T>, b: Seq<T>, back: Seq<T>)
    requires
        front + a + back == front + b + back,
    ensures
        a == b,
{
    let x = front + a + back;
    let y = front + b + back;
    assert(x.len() == y.len());
    assert forall|i: int| 0 <= i < a.len() implies a[i] == b[i] by {
        assert(x[front.len() + i] == a[i]);
        assert(y[front.len() + i] == b[i]);
    }
    assert(a =~= b);
}

/// Parts one after the other, as the hashed text has them.
spec fn row_of(
    a: Seq<char>,
    b: Seq<char>,
    c: Seq<char>,
    d: Seq<char>,
    e: Seq<char>,
    f: Seq<char>,
    g: Seq<char>,
    h: Seq<char>,
) -> Seq<char> {
    a + b + c + (d + e + f) + g + h
}

proof fn lemma_first_part(
    a: Seq<char>,
    a2: Seq<char>,
    b: Seq<char>,
    c: Seq<char>,
    d: Seq<char>,
    e: Seq<char>,
    f: Seq<char>,
    g: Seq<char>,
    h: Seq<char>,
)
    requires
        row_of(a, b, c, d, e, f, g, h) == row_of(a2, b, c, d, e, f, g, h),
    ensures
        a == a2,
{
    let tail = b + c + (d + e + f) + g + h;
    let none = Seq::<char>::empty();
    assert(row_of(a, b, c, d, e, f, g, h) =~= none + a + tail);
    assert(row_of(a2, b, c, d, e, f, g, h) =~= none + a2 + tail);
    lemma_middle(none, a, a2, tail);
}

proof fn lemma_fifth_part(
    a: Seq<char>,
    b: Seq<char>,
    c: Seq<char>,
    d: Seq<char>,
    e: Seq<char>,
    e2: Seq<char>,
    f: Seq<char>,
    g: Seq<char>,
    h: Seq<char>,
)
    requires
        row_of(a, b, c, d, e, f, g, h) == row_of(a, b, c, d, e2, f, g, h),
    ensures
        e == e2,
{
    let head = a + b + c + d;
    let tail = f + g + h;
    assert(row_of(a, b, c, d, e, f, g, h) =~= head + e + tail);
    assert(row_of(a, b, c, d, e2, f, g, h) =~= head + e2 + tail);
    lemma_middle(head, e, e2, tail);
}

proof fn lemma_sixth_part(
    a: Seq<char>,
    b: Seq<char>,
    c: Seq<char>,
    d: Seq<char>,
    e: Seq<char>,
    f: Seq<char>,
    f2: Seq<char>,
    g: Seq<char>,
    h: Seq<char>,
)
    requires
        row_of(a, b, c, d, e, f, g, h) == row_of(a, b, c, d, e, f2, g, h),
    ensures
        f == f2,
{
    let head = a + b + c + d + e;
    let tail = g + h;
    assert(row_of(a, b, c, d, e, f, g, h) =~= head + f + tail);
    assert(row_of(a, b, c, d, e, f2, g, h) =~= head + f2 + tail);
    lemma_middle(head, f, f2, tail);
}

proof fn lemma_third_part(
    a: Seq<char>,
    b: Seq<char>,
    c: Seq<char>,
    c2: Seq<char>,
    d: Seq<char>,
    e: Seq<char>,
    f: Seq<char>,
    g: Seq<char>,
    h: Seq<char>,
)
    requires
        row_of(a, b, c, d, e, f, g, h) == row_of(a, b, c2, d, e, f, g, h),
    ensures
        c == c2,
{
    let head = a + b;
    let tail = d + e + f + g + h;
    assert(row_of(a, b, c, d, e, f, g, h) =~= head + c + tail);
    assert(row_of(a, b, c2, d, e, f, g, h) =~= head + c2 + tail);
    lemma_middle(head, c, c2, tail);
}

proof fn lemma_last_parts(
    a: Seq<char>,
    b: Seq<char>,
    c: Seq<char>,
    d: Seq<char>,
    e: Seq<char>,
    f: Seq<char>,
    g: Seq<char>,
    g2: Seq<char>,
    h: Seq<char>,
    h2: Seq<char>,
)
    ensures
        row_of(a, b, c, d, e, f, g, h) == row_of(a, b, c, d, e, f, g2, h) ==> g == g2,
        row_of(a, b, c, d, e, f, g, h) == row_of(a, b, c, d, e, f, g, h2) ==> h == h2,
{
    let head = a + b + c + (d + e + f);
    let none = Seq::<char>::empty();
    if row_of(a, b, c, d, e, f, g, h) == row_of(a, b, c, d, e, f, g2, h) {
        lemma_middle(head, g, g2, h);
    }
    if row_of(a, b, c, d, e, f, g, h) == row_of(a, b, c, d, e, f, g, h2) {
        assert(row_of(a, b, c, d, e, f, g, h) =~= (head + g) + h + none);
        assert(row_of(a, b, c, d, e, f, g, h2) =~= (head + g) + h2 + none);
        lemma_middle(head + g, h, h2, none);
    }
}

proof fn lemma_decimal_tells_apart(m: nat, n: nat)
    requires
        decimal(m) == decimal(n),
    ensures
        m == n,
    decreases m,
{
    if m < 10 && n < 10 {
        assert(decimal(m)[0] == digit_char(m as int));
        assert(decimal(n)[0] == digit_char(n as int));
    } else if m < 10 {
        lemma_decimal_is_long(n / 10);
        assert(decimal(n).len() > 1);
    } else if n < 10 {
        lemma_decimal_is_long(m / 10);
        assert(decimal(m).len() > 1);
    } else {
        let x = decimal(m / 10);
        let y = decimal(n / 10);
        assert(x.push(digit_char((m % 10) as int)).drop_last() =~= x);
        assert(y.push(digit_char((n % 10) as int)).drop_last() =~= y);
        assert(decimal(m).last() == digit_char((m % 10) as int));
        assert(decimal(n).last() == digit_char((n % 10) as int));
        lemma_decimal_tells_apart(m / 10, n / 10);
    }
}

proof fn lemma_decimal_is_long(n: nat)
    ensures
        decimal(n).len() >= 1,
{
}

proof fn lemma_alpha_tells_apart(a: MaterialAlphaMode, b: MaterialAlphaMode)
    requires
        alpha_text(a) == alpha_text(b),
    ensures
        a == b,
{
    reveal_strlit("Opaque");
    reveal_strlit("Mask ");
    reveal_strlit("Blend");
    assert(a is Opaque ==> alpha_text(a)[0] == 'O');
    assert(a is Mask ==> alpha_text(a)[0] == 'M');
    assert(a is Blend ==> alpha_text(a)[0] == 'B');
    assert(b is Opaque ==> alpha_text(b)[0] == 'O');
    assert(b is Mask ==> alpha_text(b)[0] == 'M');
    assert(b is Blend ==> alpha_text(b)[0] == 'B');
    if let MaterialAlphaMode::Mask { cutoff: x } = a {
        if let MaterialAlphaMode::Mask { cutoff: y } = b {
            let none = Seq::<char>::empty();
            let front = "Mask "@;
            assert(alpha_text(a) =~= front + decimal(x.bits as nat) + none);
            assert(alpha_text(b) =~= front + decimal(y.bits as nat) + none);
            lemma_middle(front, decimal(x.bits as nat), decimal(y.bits as nat), none);
            lemma_decimal_tells_apart(x.bits as nat, y.bits as nat);
        }
    }
}

/// Whether a text holds no comma.
pub open spec fn commaless(s: Seq<char>) -> bool {
    forall|i: int| 0 <= i < s.len() ==> #[trigger] s[i] != ','
}

/// Whether two rows of keys hold the same keys, in the same order.
pub open spec fn same_keys(a: Seq<String>, b: Seq<String>) -> bool {
    a.len() == b.len() && forall|i: int| 0 <= i < a.len() ==> (#[trigger] a[i])@ == b[i]@
}

proof fn lemma_last_key(x: Seq<char>, p: Seq<char>, y: Seq<char>, q: Seq<char>)
    requires
        x + ","@ + p == y + ","@ + q,
        commaless(p),
        commaless(q),
    ensures
        p == q,
        x == y,
{
    reveal_strlit(",");
    let c = ","@;
    assert(c.len() == 1 && c[0] == ',');
    let s = x + c + p;
    let u = y + c + q;
    assert(s == u);
    assert(s.len() == x.len() + 1 + p.len());
    assert(u.len() == y.len() + 1 + q.len());
    assert(s[x.len() as int] == ',');
    assert(u[y.len() as int] == ',');
    if x.len() < y.len() {
        let i = y.len() - x.len() - 1;
        assert(s[y.len() as int] == p[i]);
        assert(false);
    }
    if y.len() < x.len() {
        let i = x.len() - y.len() - 1;
        assert(u[x.len() as int] == q[i]);
        assert(false);
    }
    assert forall|i: int| 0 <= i < p.len() implies p[i] == q[i] by {
        assert(s[x.len() + 1 + i] == p[i]);
        assert(u[y.len() + 1 + i] == q[i]);
    }
    assert(p =~= q);
    assert forall|i: int| 0 <= i < x.len() implies x[i] == y[i] by {
        assert(s[i] == x[i]);
        assert(u[i] == y[i]);
    }
    assert(x =~= y);
}

proof fn lemma_keys_tell_apart(a: Seq<String>, b: Seq<String>)
    requires
        key_text(a) == key_text(b),
        forall|i: int| 0 <= i < a.len() ==> commaless((#[trigger] a[i])@),
        forall|i: int| 0 <= i < b.len() ==> commaless((#[trigger] b[i])@),
    ensures
        same_keys(a, b),
    decreases a.len(),
{
    reveal_strlit(",");
    if a.len() == 0 {
        if b.len() > 0 {
            assert(key_text(b).len() > 0);
        }
    } else if b.len() == 0 {
        assert(key_text(a).len() > 0);
    } else {
        let x = a.drop_last();
        let y = b.drop_last();
        assert(commaless(a[a.len() - 1]@));
        assert(commaless(b[b.len() - 1]@));
        lemma_last_key(key_text(x), a.last()@, key_text(y), b.last()@);
        assert forall|i: int| 0 <= i < x.len() implies commaless((#[trigger] x[i])@) by {
            assert(x[i] == a[i]);
        }
        assert forall|i: int| 0 <= i < y.len() implies commaless((#[trigger] y[i])@) by {
            assert(y[i] == b[i]);
        }
        lemma_keys_tell_apart(x, y);
        assert forall|i: int| 0 <= i < a.len() implies (#[trigger] a[i])@ == b[i]@ by {
            if i < x.len() {
                assert(x[i] == a[i]);
                assert(y[i] == b[i]);
            }
        }
    }
}

/// An edit of the surface mode, or of the keys that the source asks for, changes
/// what is hashed. No key holds a comma.
pub proof fn law_edited_surface_is_told_apart(
    m: CustomMaterial,
    alpha: AlphaMode,
    cutoff: F32,
    shader_includes: List<String>,
    fragment_inputs: List<String>,
)
    requires
        forall|i: int|
            0 <= i < m.shader_includes@.len() ==> commaless((#[trigger] m.shader_includes@[i])@),
        forall|i: int|
            0 <= i < shader_includes@.len() ==> commaless((#[trigger] shader_includes@[i])@),
        forall|i: int|
            0 <= i < m.fragment_inputs@.len() ==> commaless((#[trigger] m.fragment_inputs@[i])@),
        forall|i: int|
            0 <= i < fragment_inputs@.len() ==> commaless((#[trigger] fragment_inputs@[i])@),
    ensures
        alpha_converted(alpha, cutoff) != alpha_converted(m.alpha, m.cutoff) ==> source_text(
            CustomMaterial { alpha, cutoff, ..m },
        ) != source_text(m),
        !same_keys(shader_includes@, m.shader_includes@) ==> source_text(
            CustomMaterial { shader_includes, ..m },
        ) != source_text(m),
        !same_keys(fragment_inputs@, m.fragment_inputs@) ==> source_text(
            CustomMaterial { fragment_inputs, ..m },
        ) != source_text(m),
{
    let none = Seq::<char>::empty();
    let a = m.wgsl@;
    let b = "\u{0}alpha_mode="@;
    let c = alpha_text(alpha_converted(m.alpha, m.cutoff));
    let d = "\u{0}alpha_wgsl="@;
    let e = m.alpha_wgsl@;
    let f = face_text(m.double_sided);
    let g = "\u{0}includes="@ + key_text(m.shader_includes@);
    let h = "\u{0}inputs="@ + key_text(m.fragment_inputs@);
    let own = source_text(m);
    assert(own == row_of(a, b, c, d, e, f, g, h));
    let c2 = alpha_text(alpha_converted(alpha, cutoff));
    let one = source_text(CustomMaterial { alpha, cutoff, ..m });
    assert(one == row_of(a, b, c2, d, e, f, g, h));
    if one == own {
        lemma_third_part(a, b, c2, c, d, e, f, g, h);
        lemma_alpha_tells_apart(alpha_converted(alpha, cutoff), alpha_converted(m.alpha, m.cutoff));
    }
    let g2 = "\u{0}includes="@ + key_text(shader_includes@);
    let h2 = "\u{0}inputs="@ + key_text(fragment_inputs@);
    lemma_last_parts(a, b, c, d, e, f, g, g2, h, h2);
    let two = source_text(CustomMaterial { shader_includes, ..m });
    assert(two == row_of(a, b, c, d, e, f, g2, h));
    if two == own {
        let front = "\u{0}includes="@;
        assert(g =~= front + key_text(m.shader_includes@) + none);
        assert(g2 =~= front + key_text(shader_includes@) + none);
        lemma_middle(front, key_text(shader_includes@), key_text(m.shader_includes@), none);
        lemma_keys_tell_apart(shader_includes@, m.shader_includes@);
    }
    let three = source_text(CustomMaterial { fragment_inputs, ..m });
    assert(three == row_of(a, b, c, d, e, f, g, h2));
    if three == own {
        let front = "\u{0}inputs="@;
        assert(h =~= front + key_text(m.fragment_inputs@) + none);
        assert(h2 =~= front + key_text(fragment_inputs@) + none);
        lemma_middle(front, key_text(fragment_inputs@), key_text(m.fragment_inputs@), none);
        lemma_keys_tell_apart(fragment_inputs@, m.fragment_inputs@);
    }
}

/// How the text tells the faces.
pub open spec fn face_text(double_sided: bool) -> Seq<char> {
    if double_sided {
        "\u{0}double_sided"@
    } else {
        "\u{0}"@
    }
}

/// An edit of one of the sources, or of the faces, changes what is hashed.
pub proof fn law_edited_source_is_told_apart(
    m: CustomMaterial,
    wgsl: String,
    alpha_wgsl: String,
    double_sided: bool,
)
    ensures
        wgsl@ != m.wgsl@ ==> source_text(CustomMaterial { wgsl, ..m }) != source_text(m),
        alpha_wgsl@ != m.alpha_wgsl@ ==> source_text(CustomMaterial { alpha_wgsl, ..m })
            != source_text(m),
        double_sided != m.double_sided ==> source_text(CustomMaterial { double_sided, ..m })
            != source_text(m),
{
    let b = "\u{0}alpha_mode="@;
    let c = alpha_text(alpha_converted(m.alpha, m.cutoff));
    let d = "\u{0}alpha_wgsl="@;
    let f = face_text(m.double_sided);
    let g = "\u{0}includes="@ + key_text(m.shader_includes@);
    let h = "\u{0}inputs="@ + key_text(m.fragment_inputs@);
    let own = source_text(m);
    assert(own == row_of(m.wgsl@, b, c, d, m.alpha_wgsl@, f, g, h));
    let one = source_text(CustomMaterial { wgsl, ..m });
    assert(one == row_of(wgsl@, b, c, d, m.alpha_wgsl@, f, g, h));
    if one == own {
        lemma_first_part(wgsl@, m.wgsl@, b, c, d, m.alpha_wgsl@, f, g, h);
    }
    let two = source_text(CustomMaterial { alpha_wgsl, ..m });
    assert(two == row_of(m.wgsl@, b, c, d, alpha_wgsl@, f, g, h));
    if two == own {
        lemma_fifth_part(m.wgsl@, b, c, d, alpha_wgsl@, m.alpha_wgsl@, f, g, h);
    }
    let f2 = face_text(double_sided);
    let three = source_text(CustomMaterial { double_sided, ..m });
    assert(three == row_of(m.wgsl@, b, c, d, m.alpha_wgsl@, f2, g, h));
    if three == own {
        lemma_sixth_part(m.wgsl@, b, c, d, m.alpha_wgsl@, f2, f, g, h);
        reveal_strlit("\u{0}double_sided");
        reveal_strlit("\u{0}");
    }
}

/// The name that the renderer gives to a registered material.
#[derive(Clone, Copy, PartialEq, Eq, Structural, Debug)]
pub struct MaterialShaderId(pub u32);

impl Same for MaterialShaderId {
    fn same(&self) -> (res: Self) {
        *self
    }
}

/// What is registered with the renderer, what was registered of it, and which
/// materials were deleted.
pub struct Registry {
    shaders: Table<MaterialShaderId>,
    hashes: Table<(u64, u64)>,
    gone: Table<bool>,
}

/// The registry as a value.
#[verifier::ext_equal]
pub struct RegistryView {
    pub shaders: Map<u128, MaterialShaderId>,
    pub hashes: Map<u128, (u64, u64)>,
    pub gone: Set<u128>,
}

impl View for Registry {
    type V = RegistryView;

    closed spec fn view(&self) -> RegistryView {
        RegistryView { shaders: self.shaders@, hashes: self.hashes@, gone: self.gone@.dom() }
    }
}

/// What is to be done when a material asks to be registered.
#[derive(Clone, Copy, PartialEq, Eq, Structural, Debug)]
pub enum RegisterPlan {
    /// The material was deleted: nothing.
    Refuse,
    /// It is registered as it is: nothing.
    Keep(MaterialShaderId),
    /// The registration that it has goes first, where it has one; then it is
    /// registered.
    Replace(Option<MaterialShaderId>),
}

/// What is to be done when a material with certain hashes asks to be registered.
pub open spec fn planned(v: RegistryView, id: AssetId, hashes: (u64, u64)) -> RegisterPlan {
    if v.gone.contains(id.0) {
        RegisterPlan::Refuse
    } else if !v.shaders.contains_key(id.0) {
        RegisterPlan::Replace(None)
    } else if v.hashes.contains_key(id.0) && v.hashes[id.0] == hashes {
        RegisterPlan::Keep(v.shaders[id.0])
    } else {
        RegisterPlan::Replace(Some(v.shaders[id.0]))
    }
}

impl RegistryView {
    /// Nothing that was deleted is registered.
    pub open spec fn clean(self) -> bool {
        forall|k: u128| #[trigger] self.gone.contains(k) ==> !self.shaders.contains_key(k)
    }
}

/// The registry after a registration.
pub open spec fn registered(
    v: RegistryView,
    id: AssetId,
    shader: MaterialShaderId,
    hashes: (u64, u64),
) -> RegistryView {
    RegistryView {
        shaders: v.shaders.insert(id.0, shader),
        hashes: v.hashes.insert(id.0, hashes),
        ..v
    }
}

/// The registry after a deletion.
pub open spec fn unregistered(v: RegistryView, id: AssetId) -> RegistryView {
    RegistryView {
        shaders: v.shaders.remove(id.0),
        hashes: v.hashes.remove(id.0),
        gone: v.gone.insert(id.0),
    }
}

impl Registry {
    /// Nothing is registered.
    pub fn new() -> (r: Registry)
        ensures
            r@ == (RegistryView { shaders: Map::empty(), hashes: Map::empty(), gone: Set::empty() }),
            r@.clean(),
    {
        let r = Registry { shaders: Table::new(), hashes: Table::new(), gone: Table::new() };
        assert(r@.gone =~= Set::empty());
        r
    }

    /// The registration of a material.
    pub fn shader_id_for_asset(&self, id: AssetId) -> (r: Option<MaterialShaderId>)
        ensures
            match r {
                Some(s) => self@.shaders.contains_key(id.0) && s == self@.shaders[id.0],
                None => !self@.shaders.contains_key(id.0),
            },
    {
        match self.shaders.get(id.0) {
            Some(s) => Some(*s),
            None => None,
        }
    }

    /// What is to be done when a material asks to be registered. A registration
    /// that is asked for after the material was deleted is refused.
    pub fn plan(&self, id: AssetId, reg: &MaterialRegistration) -> (r: RegisterPlan)
        ensures
            r == planned(self@, id, (reg.layout_hash, reg.wgsl_hash)),
    {
        if is_deleted(self, id) {
            return RegisterPlan::Refuse;
        }
        match self.shaders.get(id.0) {
            None => RegisterPlan::Replace(None),
            Some(s) => match self.hashes.get(id.0) {
                Some(h) => if h.0 == reg.layout_hash && h.1 == reg.wgsl_hash {
                    RegisterPlan::Keep(*s)
                } else {
                    RegisterPlan::Replace(Some(*s))
                },
                None => RegisterPlan::Replace(Some(*s)),
            },
        }
    }

    /// Takes note of what the renderer registered.
    pub fn register(&mut self, id: AssetId, shader: MaterialShaderId, reg: &MaterialRegistration)
        requires
            !old(self)@.gone.contains(id.0),
        ensures
            final(self)@ == registered(
                old(self)@,
                id,
                shader,
                (reg.layout_hash, reg.wgsl_hash),
            ),
            old(self)@.clean() ==> final(self)@.clean(),
    {
        self.shaders.insert(id.0, shader);
        self.hashes.insert(id.0, (reg.layout_hash, reg.wgsl_hash));
    }

    /// Takes note that a material is deleted. Hands back the registration that
    /// the renderer is to drop.
    pub fn unregister(&mut self, id: AssetId) -> (r: Option<MaterialShaderId>)
        ensures
            final(self)@ == unregistered(old(self)@, id),
            match r {
                Some(s) => old(self)@.shaders.contains_key(id.0) && s == old(self)@.shaders[id.0],
                None => !old(self)@.shaders.contains_key(id.0),
            },
            old(self)@.clean() ==> final(self)@.clean(),
    {
        let ghost v = self@;
        self.gone.insert(id.0, true);
        let r = self.shaders.remove(id.0);
        let _ = self.hashes.remove(id.0);
        assert(self@ =~= unregistered(v, id));
        r
    }
}

/// Whether a material was deleted.
pub fn is_deleted(registry: &Registry, mat_id: AssetId) -> (r: bool)
    ensures
        r == registry@.gone.contains(mat_id.0),
{
    registry.gone.contains(mat_id.0)
}

/// Whether rows of bytes differ and still hash alike, as some do: a hash has fewer
/// values than there are rows.
pub open spec fn collide(a: Seq<Seq<u8>>, b: Seq<Seq<u8>>) -> bool {
    a != b && DefaultHasher::spec_finish(a) == DefaultHasher::spec_finish(b)
}

/// Whether no key that a material asks for holds a comma.
pub open spec fn keys_commaless(m: CustomMaterial) -> bool {
    &&& forall|i: int|
        0 <= i < m.shader_includes@.len() ==> commaless((#[trigger] m.shader_includes@[i])@)
    &&& forall|i: int|
        0 <= i < m.fragment_inputs@.len() ==> commaless((#[trigger] m.fragment_inputs@[i])@)
}

/// Whether a material is another with one of these edited: a source, the faces, the
/// surface mode, the includes or the inputs.
pub open spec fn source_edited(m: CustomMaterial, n: CustomMaterial) -> bool {
    ||| n == (CustomMaterial { wgsl: n.wgsl, ..m }) && n.wgsl@ != m.wgsl@
    ||| n == (CustomMaterial { alpha_wgsl: n.alpha_wgsl, ..m }) && n.alpha_wgsl@ != m.alpha_wgsl@
    ||| n == (CustomMaterial { double_sided: n.double_sided, ..m }) && n.double_sided
        != m.double_sided
    ||| n == (CustomMaterial { alpha: n.alpha, cutoff: n.cutoff, ..m }) && alpha_converted(
        n.alpha,
        n.cutoff,
    ) != alpha_converted(m.alpha, m.cutoff)
    ||| n == (CustomMaterial { shader_includes: n.shader_includes, ..m }) && !same_keys(
        n.shader_includes@,
        m.shader_includes@,
    )
    ||| n == (CustomMaterial { fragment_inputs: n.fragment_inputs, ..m }) && !same_keys(
        n.fragment_inputs@,
        m.fragment_inputs@,
    )
}

/// Whether rows of slots have the same names.
pub open spec fn same_names(a: Seq<Slot>, b: Seq<Slot>) -> bool {
    a.len() == b.len() && forall|i: int| 0 <= i < a.len() ==> (#[trigger] a[i]).name@ == b[i].name@
}

/// Whether rows of slots have the same names and types.
pub open spec fn same_uniforms(a: Seq<Slot>, b: Seq<Slot>) -> bool {
    a.len() == b.len() && forall|i: int|
        0 <= i < a.len() ==> (#[trigger] a[i]).name@ == b[i].name@ && a[i].ty@ == b[i].ty@
}

/// Whether a material is another with one of its rows of slots edited.
pub open spec fn layout_edited(m: CustomMaterial, n: CustomMaterial) -> bool {
    ||| n == (CustomMaterial { uniforms: n.uniforms, ..m }) && !same_uniforms(
        n.uniforms@,
        m.uniforms@,
    )
    ||| n == (CustomMaterial { textures: n.textures, ..m }) && !same_names(
        n.textures@,
        m.textures@,
    )
    ||| n == (CustomMaterial { buffers: n.buffers, ..m }) && !same_names(n.buffers@, m.buffers@)
}

proof fn lemma_chunks_tell_apart(a: Seq<char>, b: Seq<char>)
    requires
        encode_utf8(a) == encode_utf8(b),
    ensures
        a == b,
{
    vstd::utf8::encode_utf8_decode_utf8(a);
    vstd::utf8::encode_utf8_decode_utf8(b);
}

proof fn lemma_names_tell_apart(a: Seq<Slot>, b: Seq<Slot>)
    requires
        name_chunks(a) == name_chunks(b),
    ensures
        same_names(a, b),
    decreases a.len(),
{
    if a.len() == 0 {
        if b.len() > 0 {
            assert(name_chunks(b).len() >= 2);
        }
    } else if b.len() == 0 {
        assert(name_chunks(a).len() >= 2);
    } else {
        let x = name_chunks(a.drop_last());
        let y = name_chunks(b.drop_last());
        let p = name_chunks(a);
        let q = name_chunks(b);
        assert(p.len() == x.len() + 2 && q.len() == y.len() + 2);
        assert(x =~= p.take(p.len() - 2));
        assert(y =~= q.take(q.len() - 2));
        assert(p[p.len() - 2] == encode_utf8(a.last().name@));
        assert(q[q.len() - 2] == encode_utf8(b.last().name@));
        lemma_chunks_tell_apart(a.last().name@, b.last().name@);
        lemma_names_tell_apart(a.drop_last(), b.drop_last());
        assert forall|i: int| 0 <= i < a.len() implies (#[trigger] a[i]).name@ == b[i].name@ by {
            if i < a.len() - 1 {
                assert(a.drop_last()[i] == a[i]);
                assert(b.drop_last()[i] == b[i]);
            }
        }
    }
}

proof fn lemma_uniforms_tell_apart(a: Seq<Slot>, b: Seq<Slot>)
    requires
        uniform_chunks(a) == uniform_chunks(b),
    ensures
        same_uniforms(a, b),
    decreases a.len(),
{
    if a.len() == 0 {
        if b.len() > 0 {
            assert(uniform_chunks(b).len() >= 4);
        }
    } else if b.len() == 0 {
        assert(uniform_chunks(a).len() >= 4);
    } else {
        let x = uniform_chunks(a.drop_last());
        let y = uniform_chunks(b.drop_last());
        let p = uniform_chunks(a);
        let q = uniform_chunks(b);
        assert(p.len() == x.len() + 4 && q.len() == y.len() + 4);
        assert(x =~= p.take(p.len() - 4));
        assert(y =~= q.take(q.len() - 4));
        assert(p[p.len() - 4] == encode_utf8(a.last().name@));
        assert(q[q.len() - 4] == encode_utf8(b.last().name@));
        assert(p[p.len() - 2] == encode_utf8(a.last().ty@));
        assert(q[q.len() - 2] == encode_utf8(b.last().ty@));
        lemma_chunks_tell_apart(a.last().name@, b.last().name@);
        lemma_chunks_tell_apart(a.last().ty@, b.last().ty@);
        lemma_uniforms_tell_apart(a.drop_last(), b.drop_last());
        assert forall|i: int| 0 <= i < a.len() implies (#[trigger] a[i]).name@ == b[i].name@
            && a[i].ty@ == b[i].ty@ by {
            if i < a.len() - 1 {
                assert(a.drop_last()[i] == a[i]);
                assert(b.drop_last()[i] == b[i]);
            }
        }
    }
}

/// An edit of a row of slots changes what the layout is hashed from.
pub proof fn law_edited_layout_is_told_apart(m: CustomMaterial, n: CustomMaterial)
    requires
        layout_edited(m, n),
    ensures
        layout_chunks(n) != layout_chunks(m),
{
    if layout_chunks(n) == layout_chunks(m) {
        let name = text_chunks(m.name@);
        let u = uniform_chunks(m.uniforms@);
        let t = name_chunks(m.textures@);
        let b = name_chunks(m.buffers@);
        let none = Seq::<Seq<u8>>::empty();
        if n == (CustomMaterial { uniforms: n.uniforms, ..m }) && !same_uniforms(
            n.uniforms@,
            m.uniforms@,
        ) {
            let u2 = uniform_chunks(n.uniforms@);
            assert(layout_chunks(m) =~= name + u + (t + b));
            assert(layout_chunks(n) =~= name + u2 + (t + b));
            lemma_middle(name, u2, u, t + b);
            lemma_uniforms_tell_apart(n.uniforms@, m.uniforms@);
        } else if n == (CustomMaterial { textures: n.textures, ..m }) && !same_names(
            n.textures@,
            m.textures@,
        ) {
            let t2 = name_chunks(n.textures@);
            assert(layout_chunks(m) =~= (name + u) + t + b);
            assert(layout_chunks(n) =~= (name + u) + t2 + b);
            lemma_middle(name + u, t2, t, b);
            lemma_names_tell_apart(n.textures@, m.textures@);
        } else {
            let b2 = name_chunks(n.buffers@);
            assert(layout_chunks(m) =~= (name + u + t) + b + none);
            assert(layout_chunks(n) =~= (name + u + t) + b2 + none);
            lemma_middle(name + u + t, b2, b, none);
            lemma_names_tell_apart(n.buffers@, m.buffers@);
        }
    }
}

/// A material that was registered and then edited in what it compiles to is
/// registered anew: the hashes of the two registrations differ, unless what is
/// hashed collides.
pub proof fn law_edited_material_is_registered_anew(
    v: RegistryView,
    shader: MaterialShaderId,
    m: CustomMaterial,
    n: CustomMaterial,
    nums: Seq<List<F32>>,
    new_nums: Seq<List<F32>>,
    r: MaterialRegistration,
    s: MaterialRegistration,
)
    requires
        registers(m, nums, r),
        registers(n, new_nums, s),
        source_edited(m, n) && keys_commaless(m) && keys_commaless(n) || layout_edited(m, n),
        !collide(text_chunks(source_text(n)), text_chunks(source_text(m))),
        !collide(layout_chunks(n), layout_chunks(m)),
    ensures
        (s.layout_hash, s.wgsl_hash) != (r.layout_hash, r.wgsl_hash),
        !v.gone.contains(m.id.0) ==> planned(
            registered(v, m.id, shader, (r.layout_hash, r.wgsl_hash)),
            n.id,
            (s.layout_hash, s.wgsl_hash),
        ) == RegisterPlan::Replace(Some(shader)),
{
    if layout_edited(m, n) {
        law_edited_layout_is_told_apart(m, n);
    } else {
        law_edited_source_is_told_apart(m, n.wgsl, n.alpha_wgsl, n.double_sided);
        law_edited_surface_is_told_apart(
            m,
            n.alpha,
            n.cutoff,
            n.shader_includes,
            n.fragment_inputs,
        );
        assert(source_text(n) != source_text(m));
        if text_chunks(source_text(n)) == text_chunks(source_text(m)) {
            assert(text_chunks(source_text(n))[0] == encode_utf8(source_text(n)));
            assert(text_chunks(source_text(m))[0] == encode_utf8(source_text(m)));
            lemma_chunks_tell_apart(source_text(n), source_text(m));
        }
    }
}

/// A deleted material is never registered again, whatever is registered or
/// deleted after it.
pub proof fn law_deleted_material_stays_deleted(
    v: RegistryView,
    id: AssetId,
    other: AssetId,
    shader: MaterialShaderId,
    hashes: (u64, u64),
)
    requires
        v.gone.contains(id.0),
    ensures
        planned(v, id, hashes) == RegisterPlan::Refuse,
        registered(v, other, shader, hashes).gone.contains(id.0),
        unregistered(v, other).gone.contains(id.0),
{
}

/// A material that is registered and asks again with the same hashes keeps its
/// registration.
pub proof fn law_same_content_is_kept(
    v: RegistryView,
    id: AssetId,
    shader: MaterialShaderId,
    hashes: (u64, u64),
)
    requires
        !v.gone.contains(id.0),
    ensures
        planned(registered(v, id, shader, hashes), id, hashes) == RegisterPlan::Keep(shader),
{
}

/// A material on a mesh: the registration it renders with, and a value, texture
/// or buffer for each slot.
pub struct DynamicMaterial {
    pub shader_id: MaterialShaderId,
    pub alpha_mode: MaterialAlphaMode,
    pub double_sided: bool,
    pub values: Vec<UniformValue>,
    pub textures: Vec<Option<TextureRef>>,
    pub buffers: Vec<Option<List<u32>>>,
}

/// Whether a value is what a uniform starts with: its default where there is one
/// of its type, else zero.
pub open spec fn starts_with(r: MaterialRegistration, i: int, v: UniformValue) -> bool {
    let ty = r.uniforms@[i].ty;
    if i < r.uniform_defaults@.len() && r.uniform_defaults@[i].type_of() == ty {
        v == r.uniform_defaults@[i]
    } else {
        is_zero_of(ty, v) && v.type_of() == ty
    }
}

/// Whether a material is what a registration starts with.
pub open spec fn is_fresh(
    r: MaterialRegistration,
    shader: MaterialShaderId,
    m: DynamicMaterial,
) -> bool {
    &&& m.shader_id == shader
    &&& m.alpha_mode == r.alpha_mode
    &&& m.double_sided == r.double_sided
    &&& m.values@.len() == r.uniforms@.len()
    &&& forall|i: int| 0 <= i < m.values@.len() ==> starts_with(r, i, #[trigger] m.values@[i])
    &&& m.textures@.len() == r.textures@.len()
    &&& forall|i: int| 0 <= i < m.textures@.len() ==> (#[trigger] m.textures@[i]) is None
    &&& m.buffers@.len() == r.buffers@.len()
    &&& forall|i: int| 0 <= i < m.buffers@.len() ==> (#[trigger] m.buffers@[i]) is None
}

fn starting_value(reg: &MaterialRegistration, i: usize) -> (v: UniformValue)
    requires
        i < reg.uniforms@.len(),
    ensures
        starts_with(*reg, i as int, v),
{
    let ty = reg.uniforms[i].ty;
    if i < reg.uniform_defaults.len() {
        let d = &reg.uniform_defaults[i];
        if d.field_type() == ty {
            return d.same();
        }
    }
    default_value_for(ty)
}

/// What a registration starts with.
pub fn build_custom_for_shader(reg: &MaterialRegistration, shader: MaterialShaderId) -> (m:
    DynamicMaterial)
    ensures
        is_fresh(*reg, shader, m),
{
    let mut values: Vec<UniformValue> = Vec::new();
    let mut i: usize = 0;
    while i < reg.uniforms.len()
        invariant
            i <= reg.uniforms@.len(),
            values@.len() == i,
            forall|j: int| 0 <= j < i ==> starts_with(*reg, j, #[trigger] values@[j]),
        decreases reg.uniforms@.len() - i,
    {
        values.push(starting_value(reg, i));
        i += 1;
    }
    let mut textures: Vec<Option<TextureRef>> = Vec::new();
    i = 0;
    while i < reg.textures.len()
        invariant
            i <= reg.textures@.len(),
            textures@.len() == i,
            forall|j: int| 0 <= j < i ==> (#[trigger] textures@[j]) is None,
        decreases reg.textures@.len() - i,
    {
        textures.push(None);
        i += 1;
    }
    let mut buffers: Vec<Option<List<u32>>> = Vec::new();
    i = 0;
    while i < reg.buffers.len()
        invariant
            i <= reg.buffers@.len(),
            buffers@.len() == i,
            forall|j: int| 0 <= j < i ==> (#[trigger] buffers@[j]) is None,
        decreases reg.buffers@.len() - i,
    {
        buffers.push(None);
        i += 1;
    }
    DynamicMaterial {
        shader_id: shader,
        alpha_mode: reg.alpha_mode,
        double_sided: reg.double_sided,
        values,
        textures,
        buffers,
    }
}

/// Whether a value is that of a slot of an instance: the override of that name
/// where it has the slot's type, else what the slot starts with.
pub open spec fn instance_value(
    r: MaterialRegistration,
    inst: MaterialInstance,
    i: int,
    v: UniformValue,
) -> bool {
    let name = r.uniforms@[i].name@;
    if inst.uniform_overrides@.contains_key(name) && inst.uniform_overrides@[name].type_of()
        == r.uniforms@[i].ty {
        v == inst.uniform_overrides@[name]
    } else {
        starts_with(r, i, v)
    }
}

/// Whether words are those of a buffer slot of an instance: of the buffer that
/// the instance binds, where its words are kept.
pub open spec fn instance_buffer(
    r: MaterialRegistration,
    inst: MaterialInstance,
    words: Map<u128, Seq<u32>>,
    i: int,
    b: Option<List<u32>>,
) -> bool {
    let name = r.buffers@[i]@;
    if inst.buffer_overrides@.contains_key(name) && words.contains_key(
        inst.buffer_overrides@[name].0,
    ) {
        b is Some && b->0@ == words[inst.buffer_overrides@[name].0]
    } else {
        b is None
    }
}

/// Whether a texture is that of a slot of an instance.
pub open spec fn instance_texture(
    r: MaterialRegistration,
    inst: MaterialInstance,
    i: int,
    t: Option<TextureRef>,
) -> bool {
    let name = r.textures@[i]@;
    if inst.texture_overrides@.contains_key(name) {
        t == Some(inst.texture_overrides@[name])
    } else {
        t is None
    }
}

/// Whether a material is what an instance renders with.
pub open spec fn is_instance(
    r: MaterialRegistration,
    shader: MaterialShaderId,
    inst: MaterialInstance,
    words: Map<u128, Seq<u32>>,
    m: DynamicMaterial,
) -> bool {
    &&& m.shader_id == shader
    &&& m.alpha_mode == r.alpha_mode
    &&& m.double_sided == r.double_sided
    &&& m.values@.len() == r.uniforms@.len()
    &&& forall|i: int|
        0 <= i < m.values@.len() ==> instance_value(r, inst, i, #[trigger] m.values@[i])
    &&& m.textures@.len() == r.textures@.len()
    &&& forall|i: int|
        0 <= i < m.textures@.len() ==> instance_texture(r, inst, i, #[trigger] m.textures@[i])
    &&& m.buffers@.len() == r.buffers@.len()
    &&& forall|i: int|
        0 <= i < m.buffers@.len() ==> instance_buffer(
            r,
            inst,
            words,
            i,
            #[trigger] m.buffers@[i],
        )
}

/// What an instance of a registered material renders with: the defaults, and
/// over them what the mesh overrides by name.
pub fn build_custom(
    reg: &MaterialRegistration,
    shader: MaterialShaderId,
    inst: &MaterialInstance,
    words: &BufferCache,
) -> (m: DynamicMaterial)
    ensures
        is_instance(*reg, shader, *inst, words@, m),
{
    let mut values: Vec<UniformValue> = Vec::new();
    let mut i: usize = 0;
    while i < reg.uniforms.len()
        invariant
            i <= reg.uniforms@.len(),
            values@.len() == i,
            forall|j: int| 0 <= j < i ==> instance_value(*reg, *inst, j, #[trigger] values@[j]),
        decreases reg.uniforms@.len() - i,
    {
        let own = match inst.uniform_overrides.get(&reg.uniforms[i].name) {
            Some(v) => if v.field_type() == reg.uniforms[i].ty {
                v
            } else {
                starting_value(reg, i)
            },
            None => starting_value(reg, i),
        };
        values.push(own);
        i += 1;
    }
    let mut textures: Vec<Option<TextureRef>> = Vec::new();
    i = 0;
    while i < reg.textures.len()
        invariant
            i <= reg.textures@.len(),
            textures@.len() == i,
            forall|j: int|
                0 <= j < i ==> instance_texture(*reg, *inst, j, #[trigger] textures@[j]),
        decreases reg.textures@.len() - i,
    {
        textures.push(inst.texture_overrides.get(&reg.textures[i]));
        i += 1;
    }
    let mut buffers: Vec<Option<List<u32>>> = Vec::new();
    i = 0;
    while i < reg.buffers.len()
        invariant
            i <= reg.buffers@.len(),
            buffers@.len() == i,
            forall|j: int|
                0 <= j < i ==> instance_buffer(
                    *reg,
                    *inst,
                    words@,
                    j,
                    #[trigger] buffers@[j],
                ),
        decreases reg.buffers@.len() - i,
    {
        let own = match inst.buffer_overrides.get(&reg.buffers[i]) {
            Some(id) => crate::buffer_cache::get(words, id),
            None => None,
        };
        buffers.push(own);
        i += 1;
    }
    DynamicMaterial {
        shader_id: shader,
        alpha_mode: reg.alpha_mode,
        double_sided: reg.double_sided,
        values,
        textures,
        buffers,
    }
}

/// Whether a uniform has a name.
pub open spec fn is_uniform(name: Seq<char>) -> spec_fn(UniformFieldRuntime) -> bool {
    |u: UniformFieldRuntime| u.name@ == name
}

/// Writes a value into a uniform of a material that renders, as an animation
/// would. Without a uniform of that name nothing happens.
pub fn set_uniform_live(
    m: &mut DynamicMaterial,
    reg: &MaterialRegistration,
    name: &str,
    text: &str,
    nums: &List<F32>,
)
    ensures
        ({
            let i = crate::find::first(reg.uniforms@, is_uniform(name@));
            let a = old(m).values@;
            let b = final(m).values@;
            &&& *final(m) == (DynamicMaterial { values: final(m).values, ..*old(m) })
            &&& if i < reg.uniforms@.len() && i < a.len() {
                &&& b == a.update(i, b[i])
                &&& registered_value(reg.uniforms@[i].ty, text@, nums@, b[i])
                &&& b[i].type_of() == reg.uniforms@[i].ty
            } else {
                b == a
            }
        }),
{
    let mut i: usize = 0;
    while i < reg.uniforms.len()
        invariant
            *m == *old(m),
            i <= reg.uniforms@.len(),
            forall|j: int| 0 <= j < i ==> !is_uniform(name@)(#[trigger] reg.uniforms@[j]),
        decreases reg.uniforms@.len() - i,
    {
        if same_text(&reg.uniforms[i].name, name) {
            proof {
                crate::find::lemma_first_is(reg.uniforms@, is_uniform(name@), i as int);
            }
            if i < m.values.len() {
                m.values.set(i, parse_uniform_value(reg.uniforms[i].ty, text, nums));
            }
            return;
        }
        i += 1;
    }
    proof {
        crate::find::lemma_first_is(reg.uniforms@, is_uniform(name@), i as int);
    }
}

/// The words of buffers that were loaded in this session, by the path that stands
/// for each.
pub struct SessionBuffers {
    rows: SlotMap<List<u32>>,
}

impl View for SessionBuffers {
    type V = Map<Seq<char>, List<u32>>;

    closed spec fn view(&self) -> Map<Seq<char>, List<u32>> {
        self.rows@
    }
}

impl SessionBuffers {
    /// No buffers.
    pub fn new() -> (b: SessionBuffers)
        ensures
            b@ == Map::<Seq<char>, List<u32>>::empty(),
    {
        SessionBuffers { rows: SlotMap::empty() }
    }

    /// Keeps the words of a buffer under a fresh id and hands back the path that
    /// stands for it.
    pub fn store_buffer_words(&mut self, fresh: AssetId, words: List<u32>) -> (path: String)
        ensures
            path@ == "session://buffer/"@ + hyphenated(fresh.0),
            final(self)@ == old(self)@.insert(path@, words),
    {
        let path = joined("session://buffer/", &id_text(fresh.0));
        self.rows = self.rows.insert(&path, words);
        path
    }

    /// The words that a path stands for.
    pub fn buffer_words_for(&self, path: &str) -> (r: Option<List<u32>>)
        ensures
            match r {
                Some(words) => self@.contains_key(path@) && words == self@[path@],
                None => !self@.contains_key(path@),
            },
    {
        self.rows.get(path)
    }
}

} // verus!
