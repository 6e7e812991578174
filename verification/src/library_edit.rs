//! The material library and the commands that edit it.
use crate::custom_material::{
    alpha_of, custom_alpha_of, drafted, find_material, is_material, mark_material_draft,
    material_at, valid_keys, validate_keys, AlphaMode, CustomAlphaMode, CustomMaterial, Slot,
};
use crate::errors::EditorError;
use crate::find::{first, lemma_first, lemma_first_is};
use crate::ids::AssetId;
use crate::list::{List, Same};
use crate::material::{MaterialAlphaMode, MaterialShading};
use crate::palette::MaterialDef;
use crate::text::{decimal, decimal_text, joined, joined3, same_text};
use crate::timeline::next_number;
use vstd::prelude::*;

verus! {

/// Edits of the material library.
#[allow(inconsistent_fields)]
pub enum LibraryCommand {
    AddCustomMaterial { id: AssetId },
    AddBuiltinMaterial { id: AssetId, shading: MaterialShading },
    DeleteCustomMaterial { id: AssetId },
    SetCurrentMaterial { current: Option<AssetId> },
    UpdateBuiltinMaterial { id: AssetId, def: MaterialDef },
    SetBuiltinAlphaMode { id: AssetId, surface: MaterialAlphaMode },
    SetCustomMaterialWgsl { id: AssetId, wgsl: String },
    SetCustomMaterialAlphaWgsl { id: AssetId, wgsl: String },
    SetCustomMaterialVertexWgsl { id: AssetId, wgsl: String },
    SetCustomMaterialAlphaMode { id: AssetId, mode: CustomAlphaMode },
    SetCustomMaterialDoubleSided { id: AssetId, double_sided: bool },
    SetCustomMaterialDebugColor { id: AssetId, hex: String },
    SetCustomMaterialLayout {
        id: AssetId,
        uniforms: List<Slot>,
        textures: List<Slot>,
        buffers: List<Slot>,
    },
    SetCustomMaterialShaderIncludes { id: AssetId, includes: List<String> },
    SetCustomMaterialFragmentInputs { id: AssetId, inputs: List<String> },
    SetMaterialUniform { id: AssetId, name: String, value: String },
}

/// The keys that a material may ask for.
pub struct ValidKeys {
    pub includes: Vec<&'static str>,
    pub inputs: Vec<&'static str>,
}

/// The materials of a project and the one that is being edited.
pub struct MaterialLibrary {
    pub materials: Vec<CustomMaterial>,
    pub current: Option<AssetId>,
}

/// A library as a value.
#[verifier::ext_equal]
pub struct LibraryView {
    pub materials: Seq<CustomMaterial>,
    pub current: Option<AssetId>,
}

impl View for MaterialLibrary {
    type V = LibraryView;

    open spec fn view(&self) -> LibraryView {
        LibraryView { materials: self.materials@, current: self.current }
    }
}

impl LibraryView {
    pub open spec fn has_material(self, id: AssetId) -> bool {
        0 <= material_at(self.materials, id) < self.materials.len()
    }

    pub open spec fn material(self, id: AssetId) -> CustomMaterial {
        self.materials[material_at(self.materials, id)]
    }

    /// The library with the material of that id replaced.
    pub open spec fn with_material(self, id: AssetId, m: CustomMaterial) -> LibraryView {
        LibraryView { materials: self.materials.update(material_at(self.materials, id), m), ..self }
    }
}

/// The materials without those of an id.
pub open spec fn without_material(ms: Seq<CustomMaterial>, id: AssetId) -> Seq<CustomMaterial>
    decreases ms.len(),
{
    if ms.len() == 0 {
        seq![]
    } else if ms.last().id == id {
        without_material(ms.drop_last(), id)
    } else {
        without_material(ms.drop_last(), id).push(ms.last())
    }
}

/// What a shading is called.
pub open spec fn shading_name(s: MaterialShading) -> Seq<char> {
    match s {
        MaterialShading::Pbr => "PBR"@,
        MaterialShading::Unlit => "Unlit"@,
        MaterialShading::Toon { .. } => "Toon"@,
        MaterialShading::FlipBook { .. } => "FlipBook"@,
    }
}

/// Whether a slot has a name.
pub open spec fn is_slot(name: Seq<char>) -> spec_fn(Slot) -> bool {
    |s: Slot| s.name@ == name
}

/// The position of the first slot with a name, or the number of slots.
pub open spec fn slot_at(slots: Seq<Slot>, name: Seq<char>) -> int {
    first(slots, is_slot(name))
}

/// Whether `m2` is what an edit makes of a material.
pub open spec fn material_edited(
    m: CustomMaterial,
    cmd: LibraryCommand,
    includes: Seq<&'static str>,
    inputs: Seq<&'static str>,
    m2: CustomMaterial,
) -> bool {
    match cmd {
        LibraryCommand::UpdateBuiltinMaterial { def, .. } => m2 == (CustomMaterial {
            builtin: Some(def),
            ..m
        }),
        LibraryCommand::SetBuiltinAlphaMode { surface, .. } => m2 == (CustomMaterial {
            builtin: Some(MaterialDef { alpha_mode: surface, ..m.builtin->0 }),
            ..m
        }),
        LibraryCommand::SetCustomMaterialWgsl { wgsl, .. } => m2 == drafted(
            CustomMaterial { wgsl, ..m },
        ),
        LibraryCommand::SetCustomMaterialAlphaWgsl { wgsl, .. } => m2 == drafted(
            CustomMaterial { alpha_wgsl: wgsl, ..m },
        ),
        LibraryCommand::SetCustomMaterialVertexWgsl { wgsl, .. } => m2 == drafted(
            CustomMaterial { vertex_wgsl: wgsl, ..m },
        ),
        LibraryCommand::SetCustomMaterialAlphaMode { mode, .. } => m2 == drafted(
            match mode {
                CustomAlphaMode::Opaque => CustomMaterial { alpha: AlphaMode::Opaque, ..m },
                CustomAlphaMode::Mask { cutoff } => CustomMaterial {
                    alpha: AlphaMode::Mask,
                    cutoff,
                    ..m
                },
                CustomAlphaMode::Blend => CustomMaterial { alpha: AlphaMode::Blend, ..m },
            },
        ),
        LibraryCommand::SetCustomMaterialDoubleSided { double_sided, .. } => m2 == drafted(
            CustomMaterial { double_sided, ..m },
        ),
        LibraryCommand::SetCustomMaterialDebugColor { hex, .. } => m2 == (CustomMaterial {
            color: hex,
            ..m
        }),
        LibraryCommand::SetCustomMaterialLayout { uniforms, textures, buffers, .. } => m2
            == drafted(CustomMaterial { uniforms, textures, buffers, ..m }),
        LibraryCommand::SetCustomMaterialShaderIncludes { includes: wanted, .. } => {
            &&& m2 == drafted(CustomMaterial { shader_includes: m2.shader_includes, ..m })
            &&& m2.shader_includes@ == valid_keys(wanted@, includes)
        },
        LibraryCommand::SetCustomMaterialFragmentInputs { inputs: wanted, .. } => {
            &&& m2 == drafted(CustomMaterial { fragment_inputs: m2.fragment_inputs, ..m })
            &&& m2.fragment_inputs@ == valid_keys(wanted@, inputs)
        },
        LibraryCommand::SetMaterialUniform { name, value, .. } => {
            let i = slot_at(m.uniforms@, name@);
            &&& m2 == (CustomMaterial { uniforms: m2.uniforms, ..m })
            &&& m2.uniforms@ == m.uniforms@.update(i, Slot { val: value, ..m.uniforms@[i] })
        },
        _ => m2 == m,
    }
}

/// The edit that takes an edit of a material back.
pub open spec fn material_inverse(m: CustomMaterial, cmd: LibraryCommand) -> LibraryCommand {
    match cmd {
        LibraryCommand::UpdateBuiltinMaterial { id, .. } => LibraryCommand::UpdateBuiltinMaterial {
            id,
            def: m.builtin->0,
        },
        LibraryCommand::SetBuiltinAlphaMode { id, .. } => LibraryCommand::UpdateBuiltinMaterial {
            id,
            def: m.builtin->0,
        },
        LibraryCommand::SetCustomMaterialWgsl { id, .. } => LibraryCommand::SetCustomMaterialWgsl {
            id,
            wgsl: m.wgsl,
        },
        LibraryCommand::SetCustomMaterialAlphaWgsl {
            id,
            ..
        } => LibraryCommand::SetCustomMaterialAlphaWgsl { id, wgsl: m.alpha_wgsl },
        LibraryCommand::SetCustomMaterialVertexWgsl {
            id,
            ..
        } => LibraryCommand::SetCustomMaterialVertexWgsl { id, wgsl: m.vertex_wgsl },
        LibraryCommand::SetCustomMaterialAlphaMode {
            id,
            ..
        } => LibraryCommand::SetCustomMaterialAlphaMode { id, mode: alpha_of(m) },
        LibraryCommand::SetCustomMaterialDoubleSided {
            id,
            ..
        } => LibraryCommand::SetCustomMaterialDoubleSided { id, double_sided: m.double_sided },
        LibraryCommand::SetCustomMaterialDebugColor {
            id,
            ..
        } => LibraryCommand::SetCustomMaterialDebugColor { id, hex: m.color },
        LibraryCommand::SetCustomMaterialLayout {
            id,
            ..
        } => LibraryCommand::SetCustomMaterialLayout {
            id,
            uniforms: m.uniforms,
            textures: m.textures,
            buffers: m.buffers,
        },
        LibraryCommand::SetCustomMaterialShaderIncludes {
            id,
            ..
        } => LibraryCommand::SetCustomMaterialShaderIncludes { id, includes: m.shader_includes },
        LibraryCommand::SetCustomMaterialFragmentInputs {
            id,
            ..
        } => LibraryCommand::SetCustomMaterialFragmentInputs { id, inputs: m.fragment_inputs },
        LibraryCommand::SetMaterialUniform { id, name, .. } => LibraryCommand::SetMaterialUniform {
            id,
            name,
            value: m.uniforms@[slot_at(m.uniforms@, name@)].val,
        },
        other => other,
    }
}

/// The material that an edit changes, where it changes one.
pub open spec fn edited_id(cmd: LibraryCommand) -> Option<AssetId> {
    match cmd {
        LibraryCommand::AddCustomMaterial { .. }
        | LibraryCommand::AddBuiltinMaterial { .. }
        | LibraryCommand::DeleteCustomMaterial { .. }
        | LibraryCommand::SetCurrentMaterial { .. } => None,
        LibraryCommand::UpdateBuiltinMaterial { id, .. } => Some(id),
        LibraryCommand::SetBuiltinAlphaMode { id, .. } => Some(id),
        LibraryCommand::SetCustomMaterialWgsl { id, .. } => Some(id),
        LibraryCommand::SetCustomMaterialAlphaWgsl { id, .. } => Some(id),
        LibraryCommand::SetCustomMaterialVertexWgsl { id, .. } => Some(id),
        LibraryCommand::SetCustomMaterialAlphaMode { id, .. } => Some(id),
        LibraryCommand::SetCustomMaterialDoubleSided { id, .. } => Some(id),
        LibraryCommand::SetCustomMaterialDebugColor { id, .. } => Some(id),
        LibraryCommand::SetCustomMaterialLayout { id, .. } => Some(id),
        LibraryCommand::SetCustomMaterialShaderIncludes { id, .. } => Some(id),
        LibraryCommand::SetCustomMaterialFragmentInputs { id, .. } => Some(id),
        LibraryCommand::SetMaterialUniform { id, .. } => Some(id),
    }
}

/// Why an edit of a material is refused, if it is.
pub open spec fn library_refused(
    v: LibraryView,
    cmd: LibraryCommand,
    r: Result<Option<LibraryCommand>, EditorError>,
) -> bool {
    match edited_id(cmd) {
        None => false,
        Some(id) => {
            let builtin = cmd is UpdateBuiltinMaterial || cmd is SetBuiltinAlphaMode;
            if !v.has_material(id) {
                r == Err::<Option<LibraryCommand>, EditorError>(
                    if builtin {
                        EditorError::NoMaterial(id)
                    } else {
                        EditorError::TargetNotFound
                    },
                )
            } else if builtin && v.material(id).builtin is None {
                r == Err::<Option<LibraryCommand>, EditorError>(
                    if cmd is UpdateBuiltinMaterial {
                        EditorError::NotBuiltin(id)
                    } else {
                        EditorError::NotBuiltinAlpha(id)
                    },
                )
            } else {
                match cmd {
                    LibraryCommand::SetMaterialUniform { name, .. } => slot_at(
                        v.material(id).uniforms@,
                        name@,
                    ) >= v.material(id).uniforms@.len() && (r matches Err(EditorError::NoUniform(n))
                        && n@ == name@),
                    _ => false,
                }
            }
        },
    }
}

/// Whether an edit of the library goes through.
pub open spec fn library_allowed(v: LibraryView, cmd: LibraryCommand) -> bool {
    match edited_id(cmd) {
        None => true,
        Some(id) => v.has_material(id) && match cmd {
            LibraryCommand::UpdateBuiltinMaterial { .. }
            | LibraryCommand::SetBuiltinAlphaMode { .. } => v.material(id).builtin is Some,
            LibraryCommand::SetMaterialUniform { name, .. } => slot_at(
                v.material(id).uniforms@,
                name@,
            ) < v.material(id).uniforms@.len(),
            _ => true,
        },
    }
}

/// An edit of the library: what it leaves behind and what it hands back.
pub open spec fn library_step(
    v: LibraryView,
    cmd: LibraryCommand,
    includes: Seq<&'static str>,
    inputs: Seq<&'static str>,
    w: LibraryView,
    r: Result<Option<LibraryCommand>, EditorError>,
) -> bool {
    if !library_allowed(v, cmd) {
        w == v && library_refused(v, cmd, r)
    } else {
        match cmd {
            LibraryCommand::AddCustomMaterial { id } => {
                &&& r == Ok::<Option<LibraryCommand>, EditorError>(None)
                &&& if v.has_material(id) {
                    w == v
                } else {
                    &&& w.current == Some(id)
                    &&& w.materials.len() == v.materials.len() + 1
                    &&& w.materials.drop_last() == v.materials
                    &&& w.materials.last().is_new(
                        id,
                        "New Material "@ + decimal(next_number(v.materials.len())),
                    )
                    &&& w.materials.last().builtin is None
                }
            },
            LibraryCommand::AddBuiltinMaterial { id, shading } => {
                &&& r == Ok::<Option<LibraryCommand>, EditorError>(None)
                &&& if v.has_material(id) {
                    w == v
                } else {
                    &&& w.current == Some(id)
                    &&& w.materials.len() == v.materials.len() + 1
                    &&& w.materials.drop_last() == v.materials
                    &&& w.materials.last().is_new(
                        id,
                        shading_name(shading) + " Material "@ + decimal(
                            next_number(v.materials.len()),
                        ),
                    )
                    &&& w.materials.last().builtin is Some
                    &&& w.materials.last().builtin->0.is_plain(shading)
                    &&& w.materials.last().builtin->0.label == w.materials.last().name
                }
            },
            LibraryCommand::DeleteCustomMaterial { id } => {
                let rest = without_material(v.materials, id);
                &&& r == Ok::<Option<LibraryCommand>, EditorError>(None)
                &&& w == (LibraryView {
                    materials: rest,
                    current: if v.current == Some(id) {
                        if rest.len() > 0 {
                            Some(rest[0].id)
                        } else {
                            None
                        }
                    } else {
                        v.current
                    },
                })
            },
            LibraryCommand::SetCurrentMaterial { current } => w == (LibraryView { current, ..v })
                && r == Ok::<Option<LibraryCommand>, EditorError>(None),
            _ => {
                let id = edited_id(cmd)->0;
                let m = v.material(id);
                let m2 = w.materials[material_at(v.materials, id)];
                &&& w == v.with_material(id, m2)
                &&& material_edited(m, cmd, includes, inputs, m2)
                &&& r == Ok::<Option<LibraryCommand>, EditorError>(Some(material_inverse(m, cmd)))
            },
        }
    }
}

/// A refused edit of the library changes nothing.
pub proof fn lemma_refused_library_edit(
    v: LibraryView,
    cmd: LibraryCommand,
    includes: Seq<&'static str>,
    inputs: Seq<&'static str>,
    w: LibraryView,
    e: EditorError,
)
    requires
        library_step(v, cmd, includes, inputs, w, Err(e)),
    ensures
        w == v,
{
}

fn find_slot_named(slots: &List<Slot>, name: &str) -> (r: Option<usize>)
    ensures
        match r {
            Some(i) => i < slots@.len() && slot_at(slots@, name@) == i,
            None => slot_at(slots@, name@) == slots@.len(),
        },
{
    let mut i: usize = 0;
    while i < slots.len()
        invariant
            i <= slots@.len(),
            forall|j: int| 0 <= j < i ==> !is_slot(name@)(#[trigger] slots@[j]),
        decreases slots@.len() - i,
    {
        if same_text(&slots.at(i).name, name) {
            proof {
                lemma_first_is(slots@, is_slot(name@), i as int);
            }
            return Some(i);
        }
        i += 1;
    }
    proof {
        lemma_first_is(slots@, is_slot(name@), i as int);
    }
    None
}

fn one_more(n: usize) -> (r: u64)
    ensures
        r == next_number(n as nat),
{
    let n: u64 = n as u64;
    if n == u64::MAX {
        u64::MAX
    } else {
        n + 1
    }
}

impl MaterialLibrary {
    /// An empty library.
    pub fn new() -> (l: MaterialLibrary)
        ensures
            l@.materials == Seq::<CustomMaterial>::empty(),
            l@.current is None,
    {
        MaterialLibrary { materials: Vec::new(), current: None }
    }

    fn delete_material(&mut self, id: AssetId)
        ensures
            forall|a: Seq<&'static str>, b: Seq<&'static str>| #[trigger]
                library_step(
                    old(self)@,
                    LibraryCommand::DeleteCustomMaterial { id },
                    a,
                    b,
                    final(self)@,
                    Ok(None),
                ),
    {
        let ghost v = self@;
        let mut rest: Vec<CustomMaterial> = Vec::new();
        let mut i: usize = 0;
        while i < self.materials.len()
            invariant
                self@ == v,
                i <= self.materials@.len(),
                rest@ == without_material(v.materials.take(i as int), id),
            decreases self.materials@.len() - i,
        {
            assert(v.materials.take(i + 1).drop_last() =~= v.materials.take(i as int));
            assert(v.materials.take(i + 1).last() == v.materials[i as int]);
            if self.materials[i].id != id {
                rest.push(self.materials[i].same());
            }
            i += 1;
        }
        assert(v.materials.take(i as int) =~= v.materials);
        self.materials = rest;
        let current = match self.current {
            Some(c) => c == id,
            None => false,
        };
        if current {
            self.current = if self.materials.len() > 0 {
                Some(self.materials[0].id)
            } else {
                None
            };
        }
    }

    /// Changes one material and tells what takes the change back.
    fn edit_material(m: &mut CustomMaterial, cmd: LibraryCommand, valid: &ValidKeys) -> (r:
        LibraryCommand)
        requires
            edited_id(cmd) is Some,
            cmd is UpdateBuiltinMaterial || cmd is SetBuiltinAlphaMode ==> old(m).builtin is Some,
            cmd matches LibraryCommand::SetMaterialUniform { name, .. } ==> slot_at(
                old(m).uniforms@,
                name@,
            ) < old(m).uniforms@.len(),
        ensures
            material_edited(*old(m), cmd, valid.includes@, valid.inputs@, *final(m)),
            r == material_inverse(*old(m), cmd),
    {
        match cmd {
            LibraryCommand::UpdateBuiltinMaterial { id, def } => {
                let prior = match &m.builtin {
                    Some(d) => d.same(),
                    None => def.same(),
                };
                m.builtin = Some(def);
                LibraryCommand::UpdateBuiltinMaterial { id, def: prior }
            },
            LibraryCommand::SetBuiltinAlphaMode { id, surface } => {
                let prior = match &m.builtin {
                    Some(d) => d.same(),
                    None => MaterialDef::plain(String::new(), MaterialShading::Pbr),
                };
                let mut next = prior.same();
                next.alpha_mode = surface;
                m.builtin = Some(next);
                LibraryCommand::UpdateBuiltinMaterial { id, def: prior }
            },
            LibraryCommand::SetCustomMaterialWgsl { id, wgsl } => {
                let prev = m.wgsl.clone();
                m.wgsl = wgsl;
                mark_material_draft(m);
                LibraryCommand::SetCustomMaterialWgsl { id, wgsl: prev }
            },
            LibraryCommand::SetCustomMaterialAlphaWgsl { id, wgsl } => {
                let prev = m.alpha_wgsl.clone();
                m.alpha_wgsl = wgsl;
                mark_material_draft(m);
                LibraryCommand::SetCustomMaterialAlphaWgsl { id, wgsl: prev }
            },
            LibraryCommand::SetCustomMaterialVertexWgsl { id, wgsl } => {
                let prev = m.vertex_wgsl.clone();
                m.vertex_wgsl = wgsl;
                mark_material_draft(m);
                LibraryCommand::SetCustomMaterialVertexWgsl { id, wgsl: prev }
            },
            LibraryCommand::SetCustomMaterialAlphaMode { id, mode } => {
                let prev = custom_alpha_of(m);
                match mode {
                    CustomAlphaMode::Opaque => {
                        m.alpha = AlphaMode::Opaque;
                    },
                    CustomAlphaMode::Mask { cutoff } => {
                        m.alpha = AlphaMode::Mask;
                        m.cutoff = cutoff;
                    },
                    CustomAlphaMode::Blend => {
                        m.alpha = AlphaMode::Blend;
                    },
                }
                mark_material_draft(m);
                LibraryCommand::SetCustomMaterialAlphaMode { id, mode: prev }
            },
            LibraryCommand::SetCustomMaterialDoubleSided { id, double_sided } => {
                let prev = m.double_sided;
                m.double_sided = double_sided;
                mark_material_draft(m);
                LibraryCommand::SetCustomMaterialDoubleSided { id, double_sided: prev }
            },
            LibraryCommand::SetCustomMaterialDebugColor { id, hex } => {
                let prev = m.color.clone();
                m.color = hex;
                LibraryCommand::SetCustomMaterialDebugColor { id, hex: prev }
            },
            LibraryCommand::SetCustomMaterialLayout { id, uniforms, textures, buffers } => {
                let prev = LibraryCommand::SetCustomMaterialLayout {
                    id,
                    uniforms: m.uniforms.clone(),
                    textures: m.textures.clone(),
                    buffers: m.buffers.clone(),
                };
                m.uniforms = uniforms;
                m.textures = textures;
                m.buffers = buffers;
                mark_material_draft(m);
                prev
            },
            LibraryCommand::SetCustomMaterialShaderIncludes { id, includes } => {
                let prev = m.shader_includes.clone();
                m.shader_includes = validate_keys(&includes, &valid.includes);
                mark_material_draft(m);
                LibraryCommand::SetCustomMaterialShaderIncludes { id, includes: prev }
            },
            LibraryCommand::SetCustomMaterialFragmentInputs { id, inputs } => {
                let prev = m.fragment_inputs.clone();
                m.fragment_inputs = validate_keys(&inputs, &valid.inputs);
                mark_material_draft(m);
                LibraryCommand::SetCustomMaterialFragmentInputs { id, inputs: prev }
            },
            LibraryCommand::SetMaterialUniform { id, name, value } => {
                let mut prev = value.clone();
                proof {
                    lemma_first(m.uniforms@, is_slot(name@));
                }
                if let Some(i) = find_slot_named(&m.uniforms, &name) {
                    let s = m.uniforms.at(i);
                    prev = s.val.clone();
                    let next = Slot {
                        name: s.name.clone(),
                        ty: s.ty.clone(),
                        val: value,
                        debug: s.debug.clone(),
                        color_kind: s.color_kind,
                    };
                    m.uniforms = m.uniforms.with(i, next);
                }
                LibraryCommand::SetMaterialUniform { id, name, value: prev }
            },
            other => other,
        }
    }

    fn target(cmd: &LibraryCommand) -> (r: Option<AssetId>)
        ensures
            r == edited_id(*cmd),
    {
        match cmd {
            LibraryCommand::AddCustomMaterial { .. }
            | LibraryCommand::AddBuiltinMaterial { .. }
            | LibraryCommand::DeleteCustomMaterial { .. }
            | LibraryCommand::SetCurrentMaterial { .. } => None,
            LibraryCommand::UpdateBuiltinMaterial { id, .. }
            | LibraryCommand::SetBuiltinAlphaMode { id, .. }
            | LibraryCommand::SetCustomMaterialWgsl { id, .. }
            | LibraryCommand::SetCustomMaterialAlphaWgsl { id, .. }
            | LibraryCommand::SetCustomMaterialVertexWgsl { id, .. }
            | LibraryCommand::SetCustomMaterialAlphaMode { id, .. }
            | LibraryCommand::SetCustomMaterialDoubleSided { id, .. }
            | LibraryCommand::SetCustomMaterialDebugColor { id, .. }
            | LibraryCommand::SetCustomMaterialLayout { id, .. }
            | LibraryCommand::SetCustomMaterialShaderIncludes { id, .. }
            | LibraryCommand::SetCustomMaterialFragmentInputs { id, .. }
            | LibraryCommand::SetMaterialUniform { id, .. } => Some(*id),
        }
    }

    fn add_material(&mut self, m: CustomMaterial)
        ensures
            final(self)@ == (LibraryView {
                materials: old(self)@.materials.push(m),
                current: Some(m.id),
            }),
    {
        self.current = Some(m.id);
        self.materials.push(m);
    }

    /// The error of an edit that cannot go through, if it cannot.
    fn refusal(&self, cmd: &LibraryCommand, id: AssetId) -> (r: Option<EditorError>)
        requires
            edited_id(*cmd) == Some(id),
        ensures
            match r {
                Some(e) => !library_allowed(self@, *cmd) && library_refused(
                    self@,
                    *cmd,
                    Err(e),
                ),
                None => library_allowed(self@, *cmd),
            },
    {
        proof {
            lemma_first(self.materials@, is_material(id));
        }
        let i = match find_material(&self.materials, id) {
            Some(i) => i,
            None => {
                return Some(
                    match cmd {
                        LibraryCommand::UpdateBuiltinMaterial { .. }
                        | LibraryCommand::SetBuiltinAlphaMode { .. } => EditorError::NoMaterial(id),
                        _ => EditorError::TargetNotFound,
                    },
                );
            },
        };
        match cmd {
            LibraryCommand::UpdateBuiltinMaterial { .. } => {
                if self.materials[i].builtin.is_none() {
                    return Some(EditorError::NotBuiltin(id));
                }
            },
            LibraryCommand::SetBuiltinAlphaMode { .. } => {
                if self.materials[i].builtin.is_none() {
                    return Some(EditorError::NotBuiltinAlpha(id));
                }
            },
            LibraryCommand::SetMaterialUniform { name, .. } => {
                if find_slot_named(&self.materials[i].uniforms, name).is_none() {
                    return Some(EditorError::NoUniform(name.clone()));
                }
            },
            _ => {},
        }
        None
    }

    /// Applies an edit of the library and hands back what takes it back.
    pub fn apply_library(&mut self, cmd: LibraryCommand, valid: &ValidKeys) -> (r: Result<
        Option<LibraryCommand>,
        EditorError,
    >)
        ensures
            library_step(old(self)@, cmd, valid.includes@, valid.inputs@, final(self)@, r),
    {
        let ghost v = self@;
        if let Some(id) = Self::target(&cmd) {
            if let Some(e) = self.refusal(&cmd, id) {
                return Err(e);
            }
            proof {
                lemma_first(self.materials@, is_material(id));
            }
            if let Some(i) = find_material(&self.materials, id) {
                let mut m = self.materials[i].same();
                let ghost m1 = m;
                let inv = Self::edit_material(&mut m, cmd, valid);
                self.materials.set(i, m);
                assert(self@ =~= v.with_material(id, m));
                assert(self@.materials[i as int] == m);
                return Ok(Some(inv));
            }
        }
        match cmd {
            LibraryCommand::AddCustomMaterial { id } => {
                if find_material(&self.materials, id).is_none() {
                    let n = one_more(self.materials.len());
                    let name = joined("New Material ", &decimal_text(n));
                    self.add_material(CustomMaterial::new(id, name));
                    assert(self@.materials.drop_last() =~= v.materials);
                } else {
                    proof {
                        lemma_first(v.materials, is_material(id));
                    }
                }
                Ok(None)
            },
            LibraryCommand::AddBuiltinMaterial { id, shading } => {
                if find_material(&self.materials, id).is_none() {
                    let n = one_more(self.materials.len());
                    let label = match shading {
                        MaterialShading::Pbr => "PBR",
                        MaterialShading::Unlit => "Unlit",
                        MaterialShading::Toon { .. } => "Toon",
                        MaterialShading::FlipBook { .. } => "FlipBook",
                    };
                    let name = joined3(label, " Material ", &decimal_text(n));
                    self.add_material(CustomMaterial::new_builtin(id, name, shading));
                    assert(self@.materials.drop_last() =~= v.materials);
                } else {
                    proof {
                        lemma_first(v.materials, is_material(id));
                    }
                }
                Ok(None)
            },
            LibraryCommand::DeleteCustomMaterial { id } => {
                self.delete_material(id);
                assert(library_step(v, cmd, valid.includes@, valid.inputs@, self@, Ok(None)));
                Ok(None)
            },
            LibraryCommand::SetCurrentMaterial { current } => {
                self.current = current;
                Ok(None)
            },
            _ => Ok(None),
        }
    }
}

/// What of a material is authored: everything but what compiling it has left.
pub open spec fn authored(m: CustomMaterial) -> CustomMaterial {
    CustomMaterial { registered: false, recompile_rev: 0, ..m }
}

/// Whether an edit of the library can be taken back exactly: the keys it
/// replaces are valid ones, and it does not take a surface mode that has a
/// cutoff in place of one that has none.
pub open spec fn library_undoable(
    m: CustomMaterial,
    cmd: LibraryCommand,
    includes: Seq<&'static str>,
    inputs: Seq<&'static str>,
) -> bool {
    match cmd {
        LibraryCommand::SetCustomMaterialShaderIncludes { .. } => valid_keys(
            m.shader_includes@,
            includes,
        ) == m.shader_includes@,
        LibraryCommand::SetCustomMaterialFragmentInputs { .. } => valid_keys(
            m.fragment_inputs@,
            inputs,
        ) == m.fragment_inputs@,
        LibraryCommand::SetCustomMaterialAlphaMode { mode, .. } => !(mode is Mask) || m.alpha
            == AlphaMode::Mask,
        _ => true,
    }
}

/// Whether two materials are authored alike, their lists compared item by item.
pub open spec fn authored_alike(a: CustomMaterial, b: CustomMaterial) -> bool {
    &&& authored(a) == authored(
        CustomMaterial {
            uniforms: a.uniforms,
            shader_includes: a.shader_includes,
            fragment_inputs: a.fragment_inputs,
            ..b
        },
    )
    &&& a.uniforms@ == b.uniforms@
    &&& a.shader_includes@ == b.shader_includes@
    &&& a.fragment_inputs@ == b.fragment_inputs@
}

/// Taking back an edit of a material restores what was authored; the material
/// stays due for compiling.
pub proof fn law_material_edit_is_undone(
    m: CustomMaterial,
    cmd: LibraryCommand,
    includes: Seq<&'static str>,
    inputs: Seq<&'static str>,
    m2: CustomMaterial,
    m3: CustomMaterial,
)
    requires
        edited_id(cmd) is Some,
        cmd is UpdateBuiltinMaterial || cmd is SetBuiltinAlphaMode ==> m.builtin is Some,
        cmd matches LibraryCommand::SetMaterialUniform { name, .. } ==> slot_at(
            m.uniforms@,
            name@,
        ) < m.uniforms@.len(),
        library_undoable(m, cmd, includes, inputs),
        material_edited(m, cmd, includes, inputs, m2),
        material_edited(m2, material_inverse(m, cmd), includes, inputs, m3),
    ensures
        authored_alike(m3, m),
{
    match cmd {
        LibraryCommand::SetMaterialUniform { name, value, .. } => {
            lemma_first(m.uniforms@, is_slot(name@));
            let i = slot_at(m.uniforms@, name@);
            lemma_first_is(m2.uniforms@, is_slot(name@), i);
            assert(m3.uniforms@ =~= m.uniforms@);
        },
        _ => {},
    }
}

} // verus!
