//! Edits of a single node: its name, its place in space, its flags, and what it
//! is. An edit hands back the edit that takes it back.
use crate::custom_material::{find_material, material_at, CustomMaterial, UniformValue};
use crate::errors::{EditorError, PaletteOp};
use crate::ids::{AssetId, NodeId, VariantId};
use crate::list::{List, Same};
use crate::material::{MaterialShading, TextureRef, TextureUseProfile};
use crate::node::{
    bound_texture, emitter_patched, light_patched, patch_builtin_param, patch_builtin_texture,
    patch_builtin_texture_transform, patch_emitter, patch_light_param, patch_material_buffer,
    patch_material_texture, patch_material_uniform, patch_texture_use_profile, rebinds, rebuffered,
    retextured, structure_key, structure_text, uniform_set, EmitterPatch, InstancerDef,
    LightParamKind, NodeKind,
};
use crate::palette::{
    param_patched, param_width, texture_patched, BuiltinParamKind, BuiltinTextureSlot, MaterialDef,
    MaterialInstance, MaterialVariant, Palette, TexturePatch,
};
use crate::text::{decimal, decimal_text, joined3, same_text};
use crate::tree::{find, find_by_id, forest, lemma_find, put, put_data, Node, NodeData, Tree};
use crate::tree_laws::{law_put_changes_one_node, law_put_is_undone};
use crate::values::{Trs, Vec3, Vec4, F32};
use vstd::prelude::*;

verus! {

/// A change to one node.
#[allow(inconsistent_fields)]
pub enum NodeEdit {
    SetKind(NodeKind),
    /// Another kind, made by merging a patch into the node's own, or why the
    /// merged value is no kind.
    PatchKind(Result<NodeKind, String>),
    SetParticleEmitter(EmitterPatch),
    SetInstancerTransforms { transforms: List<Trs>, colors: Option<List<Vec4>> },
    SetTransform(Trs),
    Rename(String),
    SetVisible(bool),
    SetLocked(bool),
    SetPrefab(bool),
    SelectMaterialVariant(Option<VariantId>),
    AddMaterialVariant { material: AssetId, id: VariantId, given: Option<String> },
    RemoveMaterialVariant(VariantId),
    RenameMaterialVariant { variant: VariantId, name: String },
    SetNodeMaterialUniform { name: String, value: UniformValue },
    /// `count` is the first number rounded to a whole number of at least one.
    SetBuiltinParam { param: BuiltinParamKind, numbers: Vec<F32>, count: u32 },
    SetBuiltinTexture { slot: BuiltinTextureSlot, texture: Option<AssetId> },
    SetTextureUseProfile { named: String, profile: Option<TextureUseProfile> },
    SetNodeTextureTransform { slot: BuiltinTextureSlot, patch: TexturePatch },
    SetLightParam { light: LightParamKind, numbers: Vec<F32> },
    SetMaterialTexture { named: String, texture: Option<AssetId> },
    SetMaterialBuffer { named: String, buffer: Option<AssetId> },
}

/// A change to a given node.
pub struct NodeCommand {
    pub node: NodeId,
    pub edit: NodeEdit,
}

/// What an edit of a node hands back: the edit that takes it back, whether the
/// node took another shape, and whether a light was touched.
pub struct NodeReply {
    pub inverse: Option<NodeCommand>,
    pub restructured: bool,
    pub relit: bool,
}

/// Whether the edit is passed over, rather than refused, where the node is not
/// there.
pub open spec fn lenient(edit: NodeEdit) -> bool {
    match edit {
        NodeEdit::PatchKind(_)
        | NodeEdit::SetParticleEmitter(_)
        | NodeEdit::SelectMaterialVariant(_)
        | NodeEdit::AddMaterialVariant { .. }
        | NodeEdit::RemoveMaterialVariant(_)
        | NodeEdit::RenameMaterialVariant { .. } => true,
        _ => false,
    }
}

/// Whether the edit replaces the kind as a whole, so that a change of shape is
/// reported.
pub open spec fn replaces_kind(edit: NodeEdit) -> bool {
    match edit {
        NodeEdit::SetKind(_)
        | NodeEdit::PatchKind(_)
        | NodeEdit::SetParticleEmitter(_)
        | NodeEdit::SetInstancerTransforms { .. }
        | NodeEdit::SelectMaterialVariant(_)
        | NodeEdit::AddMaterialVariant { .. }
        | NodeEdit::RemoveMaterialVariant(_)
        | NodeEdit::RenameMaterialVariant { .. } => true,
        _ => false,
    }
}

/// Whether a name is taken in a palette.
pub open spec fn name_taken(vs: Seq<MaterialVariant>, name: Seq<char>) -> bool {
    exists|i: int| 0 <= i < vs.len() && (#[trigger] vs[i]).name@ == name
}

/// A name with a counter.
pub open spec fn numbered(base: Seq<char>, i: nat) -> Seq<char> {
    base + " "@ + decimal(i)
}

/// The first counter from `i` on whose name is free.
pub open spec fn first_free(vs: Seq<MaterialVariant>, base: Seq<char>, i: nat) -> nat
    decreases u64::MAX - i,
{
    if i >= u64::MAX || !name_taken(vs, numbered(base, i)) {
        i
    } else {
        first_free(vs, base, i + 1)
    }
}

/// The name of an added variant: the material's own, with a counter from two on
/// where it is taken.
pub open spec fn free_name(vs: Seq<MaterialVariant>, base: Seq<char>) -> Seq<char> {
    if name_taken(vs, base) {
        numbered(base, first_free(vs, base, 2))
    } else {
        base
    }
}

/// Whether `inst` is a fresh instance of a library material.
pub open spec fn seeded(inst: MaterialInstance, m: CustomMaterial) -> bool {
    &&& inst.asset == m.id
    &&& match m.builtin {
        Some(d) => inst.inline == d,
        None => inst.inline.is_plain(MaterialShading::Pbr) && inst.inline.label@.len() == 0,
    }
    &&& inst.uniform_overrides@ == Map::<Seq<char>, UniformValue>::empty()
    &&& inst.texture_overrides@ == Map::<Seq<char>, TextureRef>::empty()
    &&& inst.buffer_overrides@ == Map::<Seq<char>, AssetId>::empty()
}

/// Whether a kind differs from another by its palette alone.
pub open spec fn repainted(k: NodeKind, k2: NodeKind) -> bool {
    k2.palette_of() is Some && k2 == k.with_palette(k2.palette_of()->0)
}

/// Whether the material that a kind renders with is one written in WGSL.
pub open spec fn custom_selected(k: NodeKind, ms: Seq<CustomMaterial>) -> bool {
    k.assigned() && {
        let i = material_at(ms, k.current().asset);
        i < ms.len() && ms[i].builtin is None
    }
}

/// The instances of a material where another replaces the rendering one.
pub open spec fn with_instance(k: NodeKind, k2: NodeKind) -> bool {
    k.assigned() && k2.replaces_current(k, k2.current())
}

/// What an edit makes of a kind: another kind, nothing, or a refusal.
pub open spec fn kind_step(
    k: NodeKind,
    edit: NodeEdit,
    ms: Seq<CustomMaterial>,
    r: Result<Option<NodeKind>, EditorError>,
) -> bool {
    match edit {
        NodeEdit::SetKind(next) => r == Ok::<Option<NodeKind>, EditorError>(Some(next)),
        NodeEdit::PatchKind(patched) => match patched {
            Ok(next) => r == Ok::<Option<NodeKind>, EditorError>(Some(next)),
            Err(why) => r == Err::<Option<NodeKind>, EditorError>(EditorError::Outside(why)),
        },
        NodeEdit::SetParticleEmitter(patch) => match k {
            NodeKind::ParticleEmitter(d) => r == Ok::<Option<NodeKind>, EditorError>(
                Some(NodeKind::ParticleEmitter(emitter_patched(d, patch))),
            ),
            _ => r == Err::<Option<NodeKind>, EditorError>(EditorError::NotAParticleEmitter),
        },
        NodeEdit::SetInstancerTransforms { transforms, colors } => match k {
            NodeKind::Instancer(d) => r == Ok::<Option<NodeKind>, EditorError>(
                Some(
                    NodeKind::Instancer(
                        InstancerDef {
                            transforms,
                            per_instance_colors: match colors {
                                Some(c) => c,
                                None => d.per_instance_colors,
                            },
                            ..d
                        },
                    ),
                ),
            ),
            _ => r == Err::<Option<NodeKind>, EditorError>(EditorError::NotAnInstancer),
        },
        NodeEdit::SelectMaterialVariant(variant) => match k.palette_of() {
            None => r == Err::<Option<NodeKind>, EditorError>(
                EditorError::NoPalette(PaletteOp::Select),
            ),
            Some(p) => if variant is Some && p.place(variant->0) >= p.variants@.len() {
                r == Err::<Option<NodeKind>, EditorError>(
                    EditorError::NoVariant(PaletteOp::Select, variant->0),
                )
            } else {
                r == Ok::<Option<NodeKind>, EditorError>(
                    Some(k.with_palette(Palette { selected: variant, ..p })),
                )
            },
        },
        NodeEdit::AddMaterialVariant { material, id, given } => {
            let i = material_at(ms, material);
            if i >= ms.len() {
                r == Err::<Option<NodeKind>, EditorError>(EditorError::NoLibraryMaterial(material))
            } else {
                match k.palette_of() {
                    None => r == Err::<Option<NodeKind>, EditorError>(
                        EditorError::NoPalette(PaletteOp::Add),
                    ),
                    Some(p) => match r {
                        Ok(Some(k2)) => {
                            let vs = k2.palette_of()->0.variants@;
                            &&& repainted(k, k2)
                            &&& k2.palette_of()->0.selected == p.selected
                            &&& vs.len() == p.variants@.len() + 1
                            &&& vs == p.variants@.push(vs.last())
                            &&& vs.last().id == id
                            &&& vs.last().name@ == match given {
                                Some(n) => n@,
                                None => free_name(p.variants@, ms[i].name@),
                            }
                            &&& seeded(vs.last().instance, ms[i])
                        },
                        _ => false,
                    },
                }
            }
        },
        NodeEdit::RemoveMaterialVariant(variant) => match k.palette_of() {
            None => r == Err::<Option<NodeKind>, EditorError>(
                EditorError::NoPalette(PaletteOp::Remove),
            ),
            Some(p) => if p.place(variant) >= p.variants@.len() {
                r == Err::<Option<NodeKind>, EditorError>(
                    EditorError::NoVariant(PaletteOp::Remove, variant),
                )
            } else {
                match r {
                    Ok(Some(k2)) => {
                        &&& repainted(k, k2)
                        &&& k2.palette_of()->0.variants@ == p.variants@.remove(p.place(variant))
                        &&& k2.palette_of()->0.selected == if p.selected == Some(variant) {
                            None
                        } else {
                            p.selected
                        }
                    },
                    _ => false,
                }
            },
        },
        NodeEdit::RenameMaterialVariant { variant, name } => match k.palette_of() {
            None => r == Err::<Option<NodeKind>, EditorError>(
                EditorError::NoPalette(PaletteOp::Rename),
            ),
            Some(p) => if p.place(variant) >= p.variants@.len() {
                r == Err::<Option<NodeKind>, EditorError>(
                    EditorError::NoVariant(PaletteOp::Rename, variant),
                )
            } else {
                match r {
                    Ok(Some(k2)) => {
                        let i = p.place(variant);
                        &&& repainted(k, k2)
                        &&& k2.palette_of()->0.variants@ == p.variants@.update(
                            i,
                            MaterialVariant { name, ..p.variants@[i] },
                        )
                        &&& k2.palette_of()->0.selected == p.selected
                    },
                    _ => false,
                }
            },
        },
        NodeEdit::SetNodeMaterialUniform { name, value } => if !k.assigned() {
            r == Err::<Option<NodeKind>, EditorError>(EditorError::NoMaterialInstance)
        } else {
            match r {
                Ok(Some(k2)) => with_instance(k, k2) && uniform_set(
                    k.current(),
                    k2.current(),
                    name@,
                    value,
                ),
                _ => false,
            }
        },
        NodeEdit::SetBuiltinParam { param, numbers, count } => if custom_selected(k, ms) {
            r == Err::<Option<NodeKind>, EditorError>(EditorError::CustomVariantSelected)
        } else if !k.assigned() || numbers@.len() < param_width(param) {
            r == Ok::<Option<NodeKind>, EditorError>(None)
        } else {
            match r {
                Ok(Some(k2)) => k2.replaces_current(
                    k,
                    (MaterialInstance {
                        inline: param_patched(k.current().inline, param, numbers@, count),
                        ..k.current()
                    }),
                ),
                _ => false,
            }
        },
        NodeEdit::SetBuiltinTexture { slot, texture } => if !k.assigned() {
            r == Ok::<Option<NodeKind>, EditorError>(None)
        } else {
            match r {
                Ok(Some(k2)) => k2.replaces_current(
                    k,
                    (MaterialInstance {
                        inline: k.current().inline.with_texture(
                            slot,
                            match texture {
                                Some(a) => Some(TextureRef::new(a)),
                                None => None,
                            },
                        ),
                        ..k.current()
                    }),
                ),
                _ => false,
            }
        },
        NodeEdit::SetTextureUseProfile { named, profile } => if !k.assigned() {
            r == Err::<Option<NodeKind>, EditorError>(EditorError::NoMaterialAssigned)
        } else if bound_texture(k.current(), named@) is None {
            r matches Err(EditorError::NamedSlotUnbound(n)) && n@ == named@
        } else {
            match r {
                Ok(Some(k2)) => with_instance(k, k2) && rebinds(
                    k.current(),
                    k2.current(),
                    named@,
                    (TextureRef {
                        export_profile: profile,
                        ..bound_texture(k.current(), named@)->0
                    }),
                ),
                _ => false,
            }
        },
        NodeEdit::SetNodeTextureTransform { slot, patch } => if !k.assigned() {
            r == Err::<Option<NodeKind>, EditorError>(EditorError::NoBuiltinMaterial)
        } else if k.current().inline.texture_in(slot) is None {
            r == Err::<Option<NodeKind>, EditorError>(EditorError::SlotUnbound(slot))
        } else {
            match r {
                Ok(Some(k2)) => k2.replaces_current(
                    k,
                    (MaterialInstance {
                        inline: k.current().inline.with_texture(
                            slot,
                            Some(
                                texture_patched(k.current().inline.texture_in(slot)->0, patch),
                            ),
                        ),
                        ..k.current()
                    }),
                ),
                _ => false,
            }
        },
        NodeEdit::SetLightParam { light, numbers } => match k {
            NodeKind::Light(cfg) => match light_patched(cfg, light, numbers@) {
                Some(next) => r == Ok::<Option<NodeKind>, EditorError>(
                    Some(NodeKind::Light(next)),
                ),
                None => r == Ok::<Option<NodeKind>, EditorError>(None),
            },
            _ => r == Ok::<Option<NodeKind>, EditorError>(None),
        },
        NodeEdit::SetMaterialTexture { named, texture } => if !k.assigned() {
            r == Ok::<Option<NodeKind>, EditorError>(None)
        } else {
            match r {
                Ok(Some(k2)) => with_instance(k, k2) && retextured(
                    k.current(),
                    k2.current(),
                    match texture {
                        Some(a) => k.current().texture_overrides@.insert(
                            named@,
                            TextureRef::new(a),
                        ),
                        None => k.current().texture_overrides@.remove(named@),
                    },
                ),
                _ => false,
            }
        },
        NodeEdit::SetMaterialBuffer { named, buffer } => if !k.assigned() {
            r == Ok::<Option<NodeKind>, EditorError>(None)
        } else {
            match r {
                Ok(Some(k2)) => with_instance(k, k2) && rebuffered(
                    k.current(),
                    k2.current(),
                    match buffer {
                        Some(a) => k.current().buffer_overrides@.insert(named@, a),
                        None => k.current().buffer_overrides@.remove(named@),
                    },
                ),
                _ => false,
            }
        },
        NodeEdit::SetTransform(_)
        | NodeEdit::Rename(_)
        | NodeEdit::SetVisible(_)
        | NodeEdit::SetLocked(_)
        | NodeEdit::SetPrefab(_) => r == Ok::<Option<NodeKind>, EditorError>(None),
    }
}

fn is_name_taken(vs: &List<MaterialVariant>, name: &str) -> (r: bool)
    ensures
        r == name_taken(vs@, name@),
{
    let mut i: usize = 0;
    while i < vs.len()
        invariant
            i <= vs@.len(),
            forall|j: int| 0 <= j < i ==> (#[trigger] vs@[j]).name@ != name@,
        decreases vs@.len() - i,
    {
        if same_text(&vs.at(i).name, name) {
            return true;
        }
        i += 1;
    }
    false
}

fn find_free_name(vs: &List<MaterialVariant>, base: &str) -> (r: String)
    ensures
        r@ == free_name(vs@, base@),
{
    if !is_name_taken(vs, base) {
        return base.to_owned();
    }
    let mut i: u64 = 2;
    let mut candidate = joined3(base, " ", &decimal_text(i));
    while i < u64::MAX && is_name_taken(vs, &candidate)
        invariant
            2 <= i,
            candidate@ == numbered(base@, i as nat),
            first_free(vs@, base@, 2) == first_free(vs@, base@, i as nat),
        decreases u64::MAX - i,
    {
        i += 1;
        candidate = joined3(base, " ", &decimal_text(i));
    }
    candidate
}

proof fn lemma_decimal_nonempty(a: nat)
    ensures
        decimal(a).len() > 0,
{
}

proof fn lemma_decimal_tells_apart(a: nat, b: nat)
    ensures
        decimal(a) == decimal(b) ==> a == b,
    decreases a,
{
    if decimal(a) == decimal(b) {
        assert(decimal(a).last() == decimal(b).last());
        lemma_decimal_nonempty(a / 10);
        lemma_decimal_nonempty(b / 10);
        if a >= 10 && b >= 10 {
            assert(decimal(a).drop_last() =~= decimal(a / 10));
            assert(decimal(b).drop_last() =~= decimal(b / 10));
            lemma_decimal_tells_apart(a / 10, b / 10);
        } else if a >= 10 {
            assert(decimal(a).len() > 1);
        } else if b >= 10 {
            assert(decimal(b).len() > 1);
        }
    }
}

proof fn lemma_numbered_tells_apart(base: Seq<char>, a: nat, b: nat)
    ensures
        numbered(base, a) == numbered(base, b) ==> a == b,
{
    if numbered(base, a) == numbered(base, b) {
        let n = (base + " "@).len() as int;
        assert(numbered(base, a).skip(n) =~= decimal(a));
        assert(numbered(base, b).skip(n) =~= decimal(b));
        lemma_decimal_tells_apart(a, b);
    }
}

proof fn lemma_first_free(vs: Seq<MaterialVariant>, base: Seq<char>, i: nat)
    ensures
        first_free(vs, base, i) >= i,
        first_free(vs, base, i) < u64::MAX ==> !name_taken(
            vs,
            numbered(base, first_free(vs, base, i)),
        ),
        forall|j: nat|
            i <= j < first_free(vs, base, i) ==> name_taken(vs, #[trigger] numbered(base, j)),
    decreases u64::MAX - i,
{
    if i < u64::MAX && name_taken(vs, numbered(base, i)) {
        lemma_first_free(vs, base, i + 1);
        assert forall|j: nat| i <= j < first_free(vs, base, i) implies name_taken(
            vs,
            #[trigger] numbered(base, j),
        ) by {
            if j > i {
            }
        }
    }
}

/// Where every counter from two up to `n` is taken, there are as many variants.
proof fn lemma_taken_count(vs: Seq<MaterialVariant>, base: Seq<char>, n: nat)
    requires
        n >= 2,
        forall|j: nat| 2 <= j < n ==> name_taken(vs, #[trigger] numbered(base, j)),
    ensures
        n - 2 <= vs.len(),
    decreases n,
{
    let names = vs.map_values(|v: MaterialVariant| v.name@).to_set();
    let used = Set::new(|s: Seq<char>| exists|j: nat| 2 <= j < n && s == #[trigger] numbered(base, j));
    vstd::seq_lib::seq_to_set_is_finite(vs.map_values(|v: MaterialVariant| v.name@));
    vs.map_values(|v: MaterialVariant| v.name@).lemma_cardinality_of_set();
    assert(used.subset_of(names)) by {
        assert forall|s: Seq<char>| used.contains(s) implies names.contains(s) by {
            let j = choose|j: nat| 2 <= j < n && s == #[trigger] numbered(base, j);
            assert(name_taken(vs, numbered(base, j)));
            let i = choose|i: int| 0 <= i < vs.len() && (#[trigger] vs[i]).name@ == s;
            assert(vs.map_values(|v: MaterialVariant| v.name@)[i] == s);
        }
    }
    lemma_counted(base, n);
    vstd::set_lib::lemma_len_subset(used, names);
}

proof fn lemma_counted(base: Seq<char>, n: nat)
    requires
        n >= 2,
    ensures
        Set::new(
            |s: Seq<char>| exists|j: nat| 2 <= j < n && s == #[trigger] numbered(base, j),
        ).finite(),
        Set::new(
            |s: Seq<char>| exists|j: nat| 2 <= j < n && s == #[trigger] numbered(base, j),
        ).len() == n - 2,
    decreases n,
{
    let used = Set::new(|s: Seq<char>| exists|j: nat| 2 <= j < n && s == #[trigger] numbered(base, j));
    if n == 2 {
        assert(used =~= Set::empty());
    } else {
        let m = (n - 1) as nat;
        let rest = Set::new(
            |s: Seq<char>| exists|j: nat| 2 <= j < m && s == #[trigger] numbered(base, j),
        );
        lemma_counted(base, m);
        assert(!rest.contains(numbered(base, m))) by {
            if rest.contains(numbered(base, m)) {
                let j = choose|j: nat|
                    2 <= j < m && numbered(base, m) == #[trigger] numbered(base, j);
                lemma_numbered_tells_apart(base, m, j);
            }
        }
        assert(used =~= rest.insert(numbered(base, m))) by {
            assert forall|s: Seq<char>| used.contains(s) implies rest.insert(
                numbered(base, m),
            ).contains(s) by {
                let j = choose|j: nat| 2 <= j < n && s == #[trigger] numbered(base, j);
                if j < m {
                    assert(rest.contains(s));
                }
            }
            assert forall|s: Seq<char>| rest.insert(numbered(base, m)).contains(
                s,
            ) implies used.contains(s) by {
                if rest.contains(s) {
                    let j = choose|j: nat| 2 <= j < m && s == #[trigger] numbered(base, j);
                    assert(used.contains(s));
                } else {
                    assert(s == numbered(base, m));
                }
            }
        }
    }
}

/// The name of an added variant is one that no variant of the palette has.
pub proof fn law_added_variant_name_is_free(vs: Seq<MaterialVariant>, base: Seq<char>)
    requires
        vs.len() < u64::MAX - 2,
    ensures
        !name_taken(vs, free_name(vs, base)),
{
    if name_taken(vs, base) {
        let n = first_free(vs, base, 2);
        lemma_first_free(vs, base, 2);
        lemma_taken_count(vs, base, n);
    }
}

fn seed_instance(m: &CustomMaterial) -> (r: MaterialInstance)
    ensures
        seeded(r, *m),
{
    let inline = match &m.builtin {
        Some(d) => d.same(),
        None => MaterialDef::plain(String::new(), MaterialShading::Pbr),
    };
    MaterialInstance::fresh(m.id, inline)
}

/// The kind with another palette.
fn repaint(k: &NodeKind, p: Palette) -> (r: NodeKind)
    ensures
        r == k.with_palette(p),
        k.palette_of() is Some ==> r.palette_of() == Some(p),
{
    let mut next = k.same();
    next.set_palette(p);
    next
}

fn select_variant(k: &NodeKind, variant: Option<VariantId>) -> (r: Result<
    Option<NodeKind>,
    EditorError,
>)
    ensures
        forall|ms: Seq<CustomMaterial>| #[trigger]
            kind_step(*k, NodeEdit::SelectMaterialVariant(variant), ms, r),
{
    match k.palette() {
        None => Err(EditorError::NoPalette(PaletteOp::Select)),
        Some(p) => {
            if let Some(id) = variant {
                if p.position(id).is_none() {
                    return Err(EditorError::NoVariant(PaletteOp::Select, id));
                }
            }
            Ok(Some(repaint(k, Palette { variants: p.variants.clone(), selected: variant })))
        },
    }
}

fn add_variant(
    k: &NodeKind,
    material: AssetId,
    id: VariantId,
    given: &Option<String>,
    ms: &Vec<CustomMaterial>,
) -> (r: Result<Option<NodeKind>, EditorError>)
    ensures
        kind_step(*k, NodeEdit::AddMaterialVariant { material, id, given: *given }, ms@, r),
{
    let m = match find_material(ms, material) {
        Some(i) => &ms[i],
        None => {
            return Err(EditorError::NoLibraryMaterial(material));
        },
    };
    match k.palette() {
        None => Err(EditorError::NoPalette(PaletteOp::Add)),
        Some(p) => {
            let name = match given {
                Some(n) => n.clone(),
                None => find_free_name(&p.variants, &m.name),
            };
            let v = MaterialVariant { id, name, instance: seed_instance(m) };
            Ok(Some(repaint(k, Palette { variants: p.variants.push(v), selected: p.selected })))
        },
    }
}

fn remove_variant(k: &NodeKind, variant: VariantId) -> (r: Result<Option<NodeKind>, EditorError>)
    ensures
        forall|ms: Seq<CustomMaterial>| #[trigger]
            kind_step(*k, NodeEdit::RemoveMaterialVariant(variant), ms, r),
{
    match k.palette() {
        None => Err(EditorError::NoPalette(PaletteOp::Remove)),
        Some(p) => match p.position(variant) {
            None => Err(EditorError::NoVariant(PaletteOp::Remove, variant)),
            Some(i) => {
                let rendered = match p.selected {
                    Some(s) => s == variant,
                    None => false,
                };
                let selected = if rendered {
                    None
                } else {
                    p.selected
                };
                Ok(Some(repaint(k, Palette { variants: p.variants.without(i), selected })))
            },
        },
    }
}

fn rename_variant(k: &NodeKind, variant: VariantId, name: &String) -> (r: Result<
    Option<NodeKind>,
    EditorError,
>)
    ensures
        forall|ms: Seq<CustomMaterial>| #[trigger]
            kind_step(*k, NodeEdit::RenameMaterialVariant { variant, name: *name }, ms, r),
{
    match k.palette() {
        None => Err(EditorError::NoPalette(PaletteOp::Rename)),
        Some(p) => match p.position(variant) {
            None => Err(EditorError::NoVariant(PaletteOp::Rename, variant)),
            Some(i) => {
                let v = p.variants.at(i);
                let next = MaterialVariant {
                    id: v.id,
                    name: name.clone(),
                    instance: v.instance.same(),
                };
                Ok(
                    Some(
                        repaint(
                            k,
                            Palette { variants: p.variants.with(i, next), selected: p.selected },
                        ),
                    ),
                )
            },
        },
    }
}

fn is_custom_selected(k: &NodeKind, ms: &Vec<CustomMaterial>) -> (r: bool)
    ensures
        r == custom_selected(*k, ms@),
{
    match k.selected_material() {
        Some(inst) => match find_material(ms, inst.asset) {
            Some(i) => ms[i].builtin.is_none(),
            None => false,
        },
        None => false,
    }
}

fn transform_texture(k: &NodeKind, slot: BuiltinTextureSlot, patch: &TexturePatch) -> (r: Result<
    Option<NodeKind>,
    EditorError,
>)
    ensures
        forall|ms: Seq<CustomMaterial>| #[trigger]
            kind_step(*k, NodeEdit::SetNodeTextureTransform { slot, patch: *patch }, ms, r),
{
    let mut next = k.same();
    match patch_builtin_texture_transform(&mut next, slot, patch) {
        Ok(_) => Ok(Some(next)),
        Err(e) => Err(e),
    }
}

fn profile_texture(k: &NodeKind, named: &String, profile: Option<TextureUseProfile>) -> (r: Result<
    Option<NodeKind>,
    EditorError,
>)
    ensures
        forall|ms: Seq<CustomMaterial>| #[trigger]
            kind_step(*k, NodeEdit::SetTextureUseProfile { named: *named, profile }, ms, r),
{
    let mut next = k.same();
    match patch_texture_use_profile(&mut next, named, profile) {
        Ok(_) => Ok(Some(next)),
        Err(e) => Err(e),
    }
}

fn light_kind(k: &NodeKind, light: LightParamKind, numbers: &Vec<F32>) -> (r: Result<
    Option<NodeKind>,
    EditorError,
>)
    ensures
        forall|ms: Seq<CustomMaterial>| #[trigger]
            kind_step(*k, NodeEdit::SetLightParam { light, numbers: *numbers }, ms, r),
{
    match k {
        NodeKind::Light(cfg) => {
            let mut next = *cfg;
            if patch_light_param(&mut next, light, numbers) {
                Ok(Some(NodeKind::Light(next)))
            } else {
                Ok(None)
            }
        },
        _ => Ok(None),
    }
}

fn place_instances(k: &NodeKind, transforms: &List<Trs>, colors: &Option<List<Vec4>>) -> (r: Result<
    Option<NodeKind>,
    EditorError,
>)
    ensures
        forall|ms: Seq<CustomMaterial>| #[trigger]
            kind_step(
                *k,
                NodeEdit::SetInstancerTransforms { transforms: *transforms, colors: *colors },
                ms,
                r,
            ),
{
    match k {
        NodeKind::Instancer(d) => Ok(
            Some(
                NodeKind::Instancer(
                    InstancerDef {
                        mesh: d.mesh,
                        transforms: transforms.clone(),
                        per_instance_colors: match colors {
                            Some(c) => c.clone(),
                            None => d.per_instance_colors.clone(),
                        },
                    },
                ),
            ),
        ),
        _ => Err(EditorError::NotAnInstancer),
    }
}

/// What an edit makes of a kind: another kind, nothing, or a refusal.
pub fn edit_kind(k: &NodeKind, edit: &NodeEdit, ms: &Vec<CustomMaterial>) -> (r: Result<
    Option<NodeKind>,
    EditorError,
>)
    ensures
        kind_step(*k, *edit, ms@, r),
{
    match edit {
        NodeEdit::SetKind(next) => Ok(Some(next.same())),
        NodeEdit::PatchKind(patched) => match patched {
            Ok(next) => Ok(Some(next.same())),
            Err(why) => Err(EditorError::Outside(why.clone())),
        },
        NodeEdit::SetParticleEmitter(patch) => match k {
            NodeKind::ParticleEmitter(d) => Ok(
                Some(NodeKind::ParticleEmitter(patch_emitter(d, patch))),
            ),
            _ => Err(EditorError::NotAParticleEmitter),
        },
        NodeEdit::SetInstancerTransforms { transforms, colors } => place_instances(
            k,
            transforms,
            colors,
        ),
        NodeEdit::SelectMaterialVariant(variant) => select_variant(k, *variant),
        NodeEdit::AddMaterialVariant { material, id, given } => add_variant(
            k,
            *material,
            *id,
            given,
            ms,
        ),
        NodeEdit::RemoveMaterialVariant(variant) => remove_variant(k, *variant),
        NodeEdit::RenameMaterialVariant { variant, name } => rename_variant(k, *variant, name),
        NodeEdit::SetNodeMaterialUniform { name, value } => {
            let mut next = k.same();
            if patch_material_uniform(&mut next, name, value.same()) {
                Ok(Some(next))
            } else {
                Err(EditorError::NoMaterialInstance)
            }
        },
        NodeEdit::SetBuiltinParam { param, numbers, count } => {
            if is_custom_selected(k, ms) {
                return Err(EditorError::CustomVariantSelected);
            }
            let mut next = k.same();
            if patch_builtin_param(&mut next, *param, numbers, *count) {
                Ok(Some(next))
            } else {
                Ok(None)
            }
        },
        NodeEdit::SetBuiltinTexture { slot, texture } => {
            let mut next = k.same();
            if patch_builtin_texture(&mut next, *slot, *texture) {
                Ok(Some(next))
            } else {
                Ok(None)
            }
        },
        NodeEdit::SetTextureUseProfile { named, profile } => profile_texture(k, named, *profile),
        NodeEdit::SetNodeTextureTransform { slot, patch } => transform_texture(k, *slot, patch),
        NodeEdit::SetLightParam { light, numbers } => light_kind(k, *light, numbers),
        NodeEdit::SetMaterialTexture { named, texture } => {
            let mut next = k.same();
            if patch_material_texture(&mut next, named, *texture) {
                Ok(Some(next))
            } else {
                Ok(None)
            }
        },
        NodeEdit::SetMaterialBuffer { named, buffer } => {
            let mut next = k.same();
            if patch_material_buffer(&mut next, named, *buffer) {
                Ok(Some(next))
            } else {
                Ok(None)
            }
        },
        NodeEdit::SetTransform(_)
        | NodeEdit::Rename(_)
        | NodeEdit::SetVisible(_)
        | NodeEdit::SetLocked(_)
        | NodeEdit::SetPrefab(_) => Ok(None),
    }
}

/// The transform that a node takes: a collider has no scale, its size is in its
/// shape.
pub open spec fn taken_transform(k: NodeKind, t: Trs) -> Trs {
    if k is Collider {
        Trs { scale: Vec3::one(), ..t }
    } else {
        t
    }
}

/// The data of a node after an edit of its fields.
pub open spec fn field_edited(d: NodeData, edit: NodeEdit) -> Option<NodeData> {
    match edit {
        NodeEdit::SetTransform(t) => Some(
            NodeData { transform: taken_transform(d.kind, t), ..d },
        ),
        NodeEdit::Rename(name) => Some(NodeData { name, ..d }),
        NodeEdit::SetVisible(visible) => Some(NodeData { visible, ..d }),
        NodeEdit::SetLocked(locked) => Some(NodeData { locked, ..d }),
        NodeEdit::SetPrefab(prefab) => Some(NodeData { prefab, ..d }),
        _ => None,
    }
}

/// The edit that takes an edit of a field back.
pub open spec fn field_inverse(d: NodeData, edit: NodeEdit) -> NodeEdit {
    match edit {
        NodeEdit::SetTransform(_) => NodeEdit::SetTransform(d.transform),
        NodeEdit::Rename(_) => NodeEdit::Rename(d.name),
        NodeEdit::SetVisible(_) => NodeEdit::SetVisible(d.visible),
        NodeEdit::SetLocked(_) => NodeEdit::SetLocked(d.locked),
        NodeEdit::SetPrefab(_) => NodeEdit::SetPrefab(d.prefab),
        _ => NodeEdit::SetKind(d.kind),
    }
}

/// An edit of a node: what it leaves behind and what it hands back.
pub open spec fn node_step(
    f: Seq<Tree>,
    cmd: NodeCommand,
    ms: Seq<CustomMaterial>,
    g: Seq<Tree>,
    r: Result<NodeReply, EditorError>,
) -> bool {
    let id = cmd.node;
    match find(f, id) {
        None => g == f && if lenient(cmd.edit) {
            r matches Ok(reply) && reply.inverse is None && !reply.restructured && !reply.relit
        } else {
            r == Err::<NodeReply, EditorError>(EditorError::TargetNotFound)
        },
        Some(t) => match field_edited(t.data, cmd.edit) {
            Some(d2) => g == put(f, id, d2) && (r matches Ok(reply) && reply.inverse == Some(
                NodeCommand { node: id, edit: field_inverse(t.data, cmd.edit) },
            ) && !reply.restructured && !reply.relit),
            None => match r {
                Err(e) => g == f && kind_step(t.data.kind, cmd.edit, ms, Err(e)),
                Ok(reply) => match reply.inverse {
                    None => {
                        &&& g == f
                        &&& kind_step(t.data.kind, cmd.edit, ms, Ok(None))
                        &&& !reply.restructured
                        &&& !reply.relit
                    },
                    Some(inv) => {
                        let k = t.data.kind;
                        let k2 = find(g, id)->0.data.kind;
                        &&& kind_step(k, cmd.edit, ms, Ok(Some(k2)))
                        &&& g == put(f, id, NodeData { kind: k2, ..t.data })
                        &&& inv == (NodeCommand { node: id, edit: NodeEdit::SetKind(k) })
                        &&& reply.restructured == (replaces_kind(cmd.edit) && structure_text(k)
                            != structure_text(k2))
                        &&& reply.relit == (cmd.edit is SetLightParam || (replaces_kind(cmd.edit)
                            && (k is Light || k2 is Light)))
                    },
                },
            },
        },
    }
}

fn is_lenient(edit: &NodeEdit) -> (r: bool)
    ensures
        r == lenient(*edit),
{
    match edit {
        NodeEdit::PatchKind(_)
        | NodeEdit::SetParticleEmitter(_)
        | NodeEdit::SelectMaterialVariant(_)
        | NodeEdit::AddMaterialVariant { .. }
        | NodeEdit::RemoveMaterialVariant(_)
        | NodeEdit::RenameMaterialVariant { .. } => true,
        _ => false,
    }
}

fn is_whole(edit: &NodeEdit) -> (r: bool)
    ensures
        r == replaces_kind(*edit),
{
    match edit {
        NodeEdit::SetKind(_)
        | NodeEdit::PatchKind(_)
        | NodeEdit::SetParticleEmitter(_)
        | NodeEdit::SetInstancerTransforms { .. }
        | NodeEdit::SelectMaterialVariant(_)
        | NodeEdit::AddMaterialVariant { .. }
        | NodeEdit::RemoveMaterialVariant(_)
        | NodeEdit::RenameMaterialVariant { .. } => true,
        _ => false,
    }
}

fn edit_field(d: &NodeData, edit: &NodeEdit) -> (r: Option<(NodeData, NodeEdit)>)
    ensures
        match r {
            Some((d2, inv)) => field_edited(*d, *edit) == Some(d2) && inv == field_inverse(
                *d,
                *edit,
            ),
            None => field_edited(*d, *edit) is None,
        },
{
    let mut next = d.same();
    match edit {
        NodeEdit::SetTransform(t) => {
            next.transform = match d.kind {
                NodeKind::Collider(_) => Trs {
                    translation: t.translation,
                    rotation: t.rotation,
                    scale: Vec3::one(),
                },
                _ => *t,
            };
            Some((next, NodeEdit::SetTransform(d.transform)))
        },
        NodeEdit::Rename(name) => {
            next.name = name.clone();
            Some((next, NodeEdit::Rename(d.name.clone())))
        },
        NodeEdit::SetVisible(b) => {
            next.visible = *b;
            Some((next, NodeEdit::SetVisible(d.visible)))
        },
        NodeEdit::SetLocked(b) => {
            next.locked = *b;
            Some((next, NodeEdit::SetLocked(d.locked)))
        },
        NodeEdit::SetPrefab(b) => {
            next.prefab = *b;
            Some((next, NodeEdit::SetPrefab(d.prefab)))
        },
        _ => None,
    }
}

fn is_light(k: &NodeKind) -> (r: bool)
    ensures
        r == (k is Light),
{
    match k {
        NodeKind::Light(_) => true,
        _ => false,
    }
}

/// Applies an edit to a node.
pub fn apply_node(nodes: &mut Vec<Node>, cmd: NodeCommand, ms: &Vec<CustomMaterial>) -> (r: Result<
    NodeReply,
    EditorError,
>)
    ensures
        node_step(forest(old(nodes)@), cmd, ms@, forest(final(nodes)@), r),
{
    let ghost f = forest(nodes@);
    let id = cmd.node;
    let data = match find_by_id(nodes, id) {
        Some(n) => n.data.same(),
        None => {
            return if is_lenient(&cmd.edit) {
                Ok(NodeReply { inverse: None, restructured: false, relit: false })
            } else {
                Err(EditorError::TargetNotFound)
            };
        },
    };
    if let Some((next, inv)) = edit_field(&data, &cmd.edit) {
        put_data(nodes, id, next);
        return Ok(
            NodeReply {
                inverse: Some(NodeCommand { node: id, edit: inv }),
                restructured: false,
                relit: false,
            },
        );
    }
    match edit_kind(&data.kind, &cmd.edit, ms) {
        Err(e) => Err(e),
        Ok(None) => Ok(NodeReply { inverse: None, restructured: false, relit: false }),
        Ok(Some(kind)) => {
            let whole = is_whole(&cmd.edit);
            let reshaped = !same_text(&structure_key(&data.kind), &structure_key(&kind));
            let light = match cmd.edit {
                NodeEdit::SetLightParam { .. } => true,
                _ => whole && (is_light(&data.kind) || is_light(&kind)),
            };
            let prev = data.kind.same();
            let next = NodeData {
                name: data.name,
                transform: data.transform,
                kind,
                visible: data.visible,
                locked: data.locked,
                prefab: data.prefab,
            };
            put_data(nodes, id, next);
            proof {
                lemma_find(f, id);
                law_put_changes_one_node(f, id, next, id);
            }
            Ok(
                NodeReply {
                    inverse: Some(NodeCommand { node: id, edit: NodeEdit::SetKind(prev) }),
                    restructured: whole && reshaped,
                    relit: light,
                },
            )
        },
    }
}

/// Taking back an edit of a node restores the whole scene. A collider keeps no
/// scale, so one that was given a scale behind the editor's back is left out.
pub proof fn law_node_edit_is_undone(
    f: Seq<Tree>,
    cmd: NodeCommand,
    ms: Seq<CustomMaterial>,
    g: Seq<Tree>,
    reply: NodeReply,
    ms2: Seq<CustomMaterial>,
    h: Seq<Tree>,
    r: Result<NodeReply, EditorError>,
)
    requires
        node_step(f, cmd, ms, g, Ok(reply)),
        reply.inverse is Some,
        node_step(g, reply.inverse->0, ms2, h, r),
        cmd.edit is SetTransform ==> {
            let d = find(f, cmd.node)->0.data;
            taken_transform(d.kind, d.transform) == d.transform
        },
    ensures
        r is Ok,
        h == f,
{
    let id = cmd.node;
    let t = find(f, id)->0;
    let d2 = match field_edited(t.data, cmd.edit) {
        Some(d2) => d2,
        None => NodeData { kind: find(g, id)->0.data.kind, ..t.data },
    };
    lemma_find(f, id);
    law_put_changes_one_node(f, id, d2, id);
    law_put_is_undone(f, id, d2);
    let u = find(g, id)->0;
    assert(u.data == d2);
    match field_edited(t.data, cmd.edit) {
        Some(_) => {
            assert(field_edited(d2, reply.inverse->0.edit) == Some(t.data));
        },
        None => {
            let k = find(h, id)->0.data.kind;
            assert(NodeData { kind: t.data.kind, ..d2 } == t.data);
        },
    }
}

/// Whether the rendering instance of one kind may be copied onto another.
pub open spec fn copies_onto(from: Option<Tree>, to: Option<Tree>) -> bool {
    &&& from is Some
    &&& to is Some
    &&& from->0.data.kind.assigned()
    &&& to->0.data.kind.assigned()
    &&& from->0.data.kind.current().asset == to->0.data.kind.current().asset
}

/// Copies the rendering instance of one node onto another that renders with the
/// same library material; otherwise nothing happens.
pub fn copy_material_instance(nodes: &mut Vec<Node>, from: NodeId, to: NodeId) -> (r: Option<
    NodeCommand,
>)
    ensures
        ({
            let f = forest(old(nodes)@);
            let g = forest(final(nodes)@);
            if copies_onto(find(f, from), find(f, to)) {
                let t = find(f, to)->0;
                let k2 = find(g, to)->0.data.kind;
                &&& k2.replaces_current(t.data.kind, find(f, from)->0.data.kind.current())
                &&& g == put(f, to, NodeData { kind: k2, ..t.data })
                &&& r == Some(NodeCommand { node: to, edit: NodeEdit::SetKind(t.data.kind) })
            } else {
                g == f && r is None
            }
        }),
{
    let ghost f = forest(nodes@);
    let inst = match find_by_id(nodes, from) {
        Some(n) => match n.data.kind.selected_material() {
            Some(inst) => inst.same(),
            None => {
                return None;
            },
        },
        None => {
            return None;
        },
    };
    let data = match find_by_id(nodes, to) {
        Some(n) => n.data.same(),
        None => {
            return None;
        },
    };
    let shared = match data.kind.selected_material() {
        Some(own) => own.asset == inst.asset,
        None => false,
    };
    if !shared {
        return None;
    }
    let prev = data.kind.same();
    let mut next = data;
    next.kind.set_current(inst);
    put_data(nodes, to, next);
    proof {
        lemma_find(f, to);
        law_put_changes_one_node(f, to, next, to);
    }
    Some(NodeCommand { node: to, edit: NodeEdit::SetKind(prev) })
}

} // verus!
