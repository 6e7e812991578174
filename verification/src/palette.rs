//! The built-in material definition with its factors and textures, the
//! instance that a mesh carries of a library material, and the palette of
//! instances that a mesh chooses from.
use crate::custom_material::UniformValue;
use crate::find::{first, lemma_first, lemma_first_is};
use crate::ids::{AssetId, VariantId};
use crate::list::{List, Same};
use crate::material::{
    MaterialAlphaMode, MaterialShading, PbrExtensions, TextureFilter, TextureRef, TextureSampler,
    TextureTransform, TextureWrap,
};
use crate::table::SlotMap;
use crate::text::same_text;
use crate::values::{Vec2, Vec3, Vec4, F32};
use vstd::prelude::*;

verus! {

/// The definition of a built-in material.
pub struct MaterialDef {
    pub label: String,
    pub shading: MaterialShading,
    pub base_color: Vec4,
    pub emissive: Vec3,
    pub metallic: F32,
    pub roughness: F32,
    pub normal_scale: F32,
    pub occlusion_strength: F32,
    pub ssr_mask: F32,
    pub alpha_mode: MaterialAlphaMode,
    pub double_sided: bool,
    pub base_color_texture: Option<TextureRef>,
    pub metallic_roughness_texture: Option<TextureRef>,
    pub normal_texture: Option<TextureRef>,
    pub occlusion_texture: Option<TextureRef>,
    pub emissive_texture: Option<TextureRef>,
    pub extensions: PbrExtensions,
}

impl Same for MaterialDef {
    fn same(&self) -> (res: Self) {
        MaterialDef {
            label: self.label.clone(),
            shading: self.shading,
            base_color: self.base_color,
            emissive: self.emissive,
            metallic: self.metallic,
            roughness: self.roughness,
            normal_scale: self.normal_scale,
            occlusion_strength: self.occlusion_strength,
            ssr_mask: self.ssr_mask,
            alpha_mode: self.alpha_mode,
            double_sided: self.double_sided,
            base_color_texture: self.base_color_texture,
            metallic_roughness_texture: self.metallic_roughness_texture,
            normal_texture: self.normal_texture,
            occlusion_texture: self.occlusion_texture,
            emissive_texture: self.emissive_texture,
            extensions: self.extensions,
        }
    }
}

impl MaterialDef {
    /// Whether a definition is the plain one: white, fully rough, opaque,
    /// single-sided, without textures or extensions, under a given shading.
    pub open spec fn is_plain(self, shading: MaterialShading) -> bool {
        &&& self.shading == shading
        &&& self.base_color == Vec4::white()
        &&& self.emissive == Vec3::zero()
        &&& self.metallic == F32::zero()
        &&& self.roughness == F32::one()
        &&& self.normal_scale == F32::one()
        &&& self.occlusion_strength == F32::one()
        &&& self.ssr_mask == F32::one()
        &&& self.alpha_mode == MaterialAlphaMode::Opaque
        &&& !self.double_sided
        &&& self.base_color_texture is None
        &&& self.metallic_roughness_texture is None
        &&& self.normal_texture is None
        &&& self.occlusion_texture is None
        &&& self.emissive_texture is None
        &&& self.extensions == PbrExtensions::none()
    }

    /// The plain definition.
    pub fn plain(label: String, shading: MaterialShading) -> (d: MaterialDef)
        ensures
            d.is_plain(shading),
            d.label == label,
    {
        MaterialDef {
            label,
            shading,
            base_color: Vec4::white(),
            emissive: Vec3::zero(),
            metallic: F32::zero(),
            roughness: F32::one(),
            normal_scale: F32::one(),
            occlusion_strength: F32::one(),
            ssr_mask: F32::one(),
            alpha_mode: MaterialAlphaMode::Opaque,
            double_sided: false,
            base_color_texture: None,
            metallic_roughness_texture: None,
            normal_texture: None,
            occlusion_texture: None,
            emissive_texture: None,
            extensions: PbrExtensions::none(),
        }
    }
}

/// A factor of a built-in material.
#[derive(Clone, Copy, PartialEq, Eq, Structural, Debug)]
pub enum BuiltinParamKind {
    BaseColor,
    Emissive,
    Metallic,
    Roughness,
    NormalScale,
    OcclusionStrength,
    SsrMask,
    EmissiveStrength,
    AlphaCutoff,
    ToonDiffuseBands,
    ToonSpecularSteps,
    ToonShininess,
    ToonRimStrength,
    ToonRimPower,
    FlipbookFps,
    FlipbookTimeOffset,
}

/// A texture slot of a built-in material.
#[derive(Clone, Copy, PartialEq, Eq, Structural, Debug)]
pub enum BuiltinTextureSlot {
    BaseColor,
    MetallicRoughness,
    Normal,
    Occlusion,
    Emissive,
}

/// The shading with one of its knobs set; a knob of another shading changes
/// nothing. A number of bands or steps is `count`, every other knob `v`.
pub open spec fn shading_patched(
    s: MaterialShading,
    param: BuiltinParamKind,
    v: F32,
    count: u32,
) -> MaterialShading {
    match (s, param) {
        (
            MaterialShading::Toon {
                diffuse_bands,
                specular_steps,
                shininess,
                rim_strength,
                rim_power,
            },
            p,
        ) => MaterialShading::Toon {
            diffuse_bands: if p == BuiltinParamKind::ToonDiffuseBands {
                at_least_one(count)
            } else {
                diffuse_bands
            },
            specular_steps: if p == BuiltinParamKind::ToonSpecularSteps {
                at_least_one(count)
            } else {
                specular_steps
            },
            shininess: if p == BuiltinParamKind::ToonShininess {
                v
            } else {
                shininess
            },
            rim_strength: if p == BuiltinParamKind::ToonRimStrength {
                v
            } else {
                rim_strength
            },
            rim_power: if p == BuiltinParamKind::ToonRimPower {
                v
            } else {
                rim_power
            },
        },
        (MaterialShading::FlipBook { fps, time_offset }, p) => MaterialShading::FlipBook {
            fps: if p == BuiltinParamKind::FlipbookFps {
                v
            } else {
                fps
            },
            time_offset: if p == BuiltinParamKind::FlipbookTimeOffset {
                v
            } else {
                time_offset
            },
        },
        _ => s,
    }
}

/// A number of bands or steps: at least one.
#[verifier::allow_in_spec]
pub fn at_least_one(count: u32) -> u32
    returns
        if count == 0 {
            1u32
        } else {
            count
        },
{
    if count == 0 {
        1
    } else {
        count
    }
}

/// How many numbers a factor takes at the least.
pub open spec fn param_width(param: BuiltinParamKind) -> nat {
    match param {
        BuiltinParamKind::BaseColor | BuiltinParamKind::Emissive => 3,
        _ => 1,
    }
}

/// The definition with a factor set from the numbers of `value`.
pub open spec fn param_patched(
    d: MaterialDef,
    param: BuiltinParamKind,
    value: Seq<F32>,
    count: u32,
) -> MaterialDef {
    let v = value[0];
    match param {
        BuiltinParamKind::BaseColor => MaterialDef {
            base_color: Vec4 {
                x: v,
                y: value[1],
                z: value[2],
                w: if value.len() > 3 {
                    value[3]
                } else {
                    d.base_color.w
                },
            },
            ..d
        },
        BuiltinParamKind::Emissive => MaterialDef {
            emissive: Vec3 { x: v, y: value[1], z: value[2] },
            ..d
        },
        BuiltinParamKind::Metallic => MaterialDef { metallic: v, ..d },
        BuiltinParamKind::Roughness => MaterialDef { roughness: v, ..d },
        BuiltinParamKind::NormalScale => MaterialDef { normal_scale: v, ..d },
        BuiltinParamKind::OcclusionStrength => MaterialDef { occlusion_strength: v, ..d },
        BuiltinParamKind::SsrMask => MaterialDef { ssr_mask: v.unit_clamped(), ..d },
        BuiltinParamKind::EmissiveStrength => MaterialDef {
            extensions: PbrExtensions { emissive_strength: Some(v), ..d.extensions },
            ..d
        },
        BuiltinParamKind::AlphaCutoff => match d.alpha_mode {
            MaterialAlphaMode::Mask { .. } => MaterialDef {
                alpha_mode: MaterialAlphaMode::Mask { cutoff: v },
                ..d
            },
            _ => d,
        },
        _ => MaterialDef { shading: shading_patched(d.shading, param, v, count), ..d },
    }
}

fn patch_shading(s: MaterialShading, param: BuiltinParamKind, v: F32, count: u32) -> (r:
    MaterialShading)
    ensures
        r == shading_patched(s, param, v, count),
{
    match s {
        MaterialShading::Toon {
            diffuse_bands,
            specular_steps,
            shininess,
            rim_strength,
            rim_power,
        } => MaterialShading::Toon {
            diffuse_bands: if param == BuiltinParamKind::ToonDiffuseBands {
                at_least_one(count)
            } else {
                diffuse_bands
            },
            specular_steps: if param == BuiltinParamKind::ToonSpecularSteps {
                at_least_one(count)
            } else {
                specular_steps
            },
            shininess: if param == BuiltinParamKind::ToonShininess {
                v
            } else {
                shininess
            },
            rim_strength: if param == BuiltinParamKind::ToonRimStrength {
                v
            } else {
                rim_strength
            },
            rim_power: if param == BuiltinParamKind::ToonRimPower {
                v
            } else {
                rim_power
            },
        },
        MaterialShading::FlipBook { fps, time_offset } => MaterialShading::FlipBook {
            fps: if param == BuiltinParamKind::FlipbookFps {
                v
            } else {
                fps
            },
            time_offset: if param == BuiltinParamKind::FlipbookTimeOffset {
                v
            } else {
                time_offset
            },
        },
        MaterialShading::Pbr => MaterialShading::Pbr,
        MaterialShading::Unlit => MaterialShading::Unlit,
    }
}

/// Sets a factor of a definition from `value`. `count` is the first number
/// rounded to a whole number, for the factors that count bands or steps; there is
/// at least one of them. Returns false, and changes nothing, where `value` is too short.
pub fn patch_def_param(
    d: &mut MaterialDef,
    param: BuiltinParamKind,
    value: &Vec<F32>,
    count: u32,
) -> (r: bool)
    ensures
        r == (value@.len() >= param_width(param)),
        *final(d) == if r {
            param_patched(*old(d), param, value@, count)
        } else {
            *old(d)
        },
{
    match param {
        BuiltinParamKind::BaseColor => {
            if value.len() < 3 {
                return false;
            }
            let w = if value.len() > 3 {
                value[3]
            } else {
                d.base_color.w
            };
            d.base_color = Vec4 { x: value[0], y: value[1], z: value[2], w };
        },
        BuiltinParamKind::Emissive => {
            if value.len() < 3 {
                return false;
            }
            d.emissive = Vec3 { x: value[0], y: value[1], z: value[2] };
        },
        _ => {
            if value.len() < 1 {
                return false;
            }
            let v = value[0];
            match param {
                BuiltinParamKind::Metallic => {
                    d.metallic = v;
                },
                BuiltinParamKind::Roughness => {
                    d.roughness = v;
                },
                BuiltinParamKind::NormalScale => {
                    d.normal_scale = v;
                },
                BuiltinParamKind::OcclusionStrength => {
                    d.occlusion_strength = v;
                },
                BuiltinParamKind::SsrMask => {
                    d.ssr_mask = v.clamp_unit();
                },
                BuiltinParamKind::EmissiveStrength => {
                    d.extensions.emissive_strength = Some(v);
                },
                BuiltinParamKind::AlphaCutoff => {
                    if let MaterialAlphaMode::Mask { cutoff } = d.alpha_mode {
                        d.alpha_mode = MaterialAlphaMode::Mask { cutoff: v };
                    }
                },
                _ => {
                    d.shading = patch_shading(d.shading, param, v, count);
                },
            }
        },
    }
    true
}

impl MaterialDef {
    /// The texture in a built-in slot.
    pub open spec fn texture_in(self, slot: BuiltinTextureSlot) -> Option<TextureRef> {
        match slot {
            BuiltinTextureSlot::BaseColor => self.base_color_texture,
            BuiltinTextureSlot::MetallicRoughness => self.metallic_roughness_texture,
            BuiltinTextureSlot::Normal => self.normal_texture,
            BuiltinTextureSlot::Occlusion => self.occlusion_texture,
            BuiltinTextureSlot::Emissive => self.emissive_texture,
        }
    }

    /// The definition with `tref` in a built-in slot.
    pub open spec fn with_texture(
        self,
        slot: BuiltinTextureSlot,
        tref: Option<TextureRef>,
    ) -> MaterialDef {
        match slot {
            BuiltinTextureSlot::BaseColor => MaterialDef { base_color_texture: tref, ..self },
            BuiltinTextureSlot::MetallicRoughness => MaterialDef {
                metallic_roughness_texture: tref,
                ..self
            },
            BuiltinTextureSlot::Normal => MaterialDef { normal_texture: tref, ..self },
            BuiltinTextureSlot::Occlusion => MaterialDef { occlusion_texture: tref, ..self },
            BuiltinTextureSlot::Emissive => MaterialDef { emissive_texture: tref, ..self },
        }
    }

    pub fn texture(&self, slot: BuiltinTextureSlot) -> (r: Option<TextureRef>)
        ensures
            r == self.texture_in(slot),
    {
        match slot {
            BuiltinTextureSlot::BaseColor => self.base_color_texture,
            BuiltinTextureSlot::MetallicRoughness => self.metallic_roughness_texture,
            BuiltinTextureSlot::Normal => self.normal_texture,
            BuiltinTextureSlot::Occlusion => self.occlusion_texture,
            BuiltinTextureSlot::Emissive => self.emissive_texture,
        }
    }

    pub fn set_texture(&mut self, slot: BuiltinTextureSlot, tref: Option<TextureRef>)
        ensures
            *final(self) == old(self).with_texture(slot, tref),
    {
        match slot {
            BuiltinTextureSlot::BaseColor => {
                self.base_color_texture = tref;
            },
            BuiltinTextureSlot::MetallicRoughness => {
                self.metallic_roughness_texture = tref;
            },
            BuiltinTextureSlot::Normal => {
                self.normal_texture = tref;
            },
            BuiltinTextureSlot::Occlusion => {
                self.occlusion_texture = tref;
            },
            BuiltinTextureSlot::Emissive => {
                self.emissive_texture = tref;
            },
        }
    }
}

/// The slot that a built-in slot name names.
pub open spec fn builtin_slot_named(name: Seq<char>) -> Option<BuiltinTextureSlot> {
    if name == "base_color"@ {
        Some(BuiltinTextureSlot::BaseColor)
    } else if name == "metallic_roughness"@ {
        Some(BuiltinTextureSlot::MetallicRoughness)
    } else if name == "normal"@ {
        Some(BuiltinTextureSlot::Normal)
    } else if name == "occlusion"@ {
        Some(BuiltinTextureSlot::Occlusion)
    } else if name == "emissive"@ {
        Some(BuiltinTextureSlot::Emissive)
    } else {
        None
    }
}

pub fn builtin_slot(name: &str) -> (r: Option<BuiltinTextureSlot>)
    ensures
        r == builtin_slot_named(name@),
{
    if same_text(name, "base_color") {
        Some(BuiltinTextureSlot::BaseColor)
    } else if same_text(name, "metallic_roughness") {
        Some(BuiltinTextureSlot::MetallicRoughness)
    } else if same_text(name, "normal") {
        Some(BuiltinTextureSlot::Normal)
    } else if same_text(name, "occlusion") {
        Some(BuiltinTextureSlot::Occlusion)
    } else if same_text(name, "emissive") {
        Some(BuiltinTextureSlot::Emissive)
    } else {
        None
    }
}

/// A change to how a slot samples its texture; a field that is `None` stays.
#[derive(Clone, Copy, PartialEq, Eq, Structural, Debug)]
pub struct TexturePatch {
    pub offset: Option<Vec2>,
    pub scale: Option<Vec2>,
    pub rotation: Option<F32>,
    pub flow: Option<Vec2>,
    pub wrap_u: Option<TextureWrap>,
    pub wrap_v: Option<TextureWrap>,
    pub uv_set: Option<u32>,
    pub mag_filter: Option<TextureFilter>,
    pub min_filter: Option<TextureFilter>,
    pub mipmap_filter: Option<TextureFilter>,
}

/// The value of a patch field, or the one that was there.
pub open spec fn or_kept<T>(patch: Option<T>, kept: T) -> T {
    match patch {
        Some(v) => v,
        None => kept,
    }
}

/// The texture binding after a patch. The transform and the sampler settings
/// are touched only where one of their fields is given, and start from the
/// identity transform and the standard sampler where there were none.
pub open spec fn texture_patched(t: TextureRef, p: TexturePatch) -> TextureRef {
    let base = or_kept(t.transform, TextureTransform::identity());
    let samp = or_kept(t.sampler, TextureSampler::standard());
    TextureRef {
        asset: t.asset,
        uv_index: or_kept(p.uv_set, t.uv_index),
        transform: if p.offset is Some || p.scale is Some || p.rotation is Some {
            Some(
                TextureTransform {
                    offset: or_kept(p.offset, base.offset),
                    scale: or_kept(p.scale, base.scale),
                    rotation: or_kept(p.rotation, base.rotation),
                },
            )
        } else {
            t.transform
        },
        sampler: if p.wrap_u is Some || p.wrap_v is Some || p.mag_filter is Some
            || p.min_filter is Some || p.mipmap_filter is Some {
            Some(
                TextureSampler {
                    wrap_u: or_kept(p.wrap_u, samp.wrap_u),
                    wrap_v: or_kept(p.wrap_v, samp.wrap_v),
                    mag_filter: or_kept(p.mag_filter, samp.mag_filter),
                    min_filter: or_kept(p.min_filter, samp.min_filter),
                    mipmap_filter: or_kept(p.mipmap_filter, samp.mipmap_filter),
                },
            )
        } else {
            t.sampler
        },
        flow: match p.flow {
            Some(f) => Some(f),
            None => t.flow,
        },
        export_profile: t.export_profile,
    }
}

/// The value of a patch field, or the one that was there.
pub fn kept<T: Copy>(patch: Option<T>, before: T) -> (r: T)
    ensures
        r == or_kept(patch, before),
{
    match patch {
        Some(v) => v,
        None => before,
    }
}

/// Applies a patch to a texture binding.
pub fn patch_texture(t: TextureRef, p: &TexturePatch) -> (r: TextureRef)
    ensures
        r == texture_patched(t, *p),
{
    let transform = if p.offset.is_some() || p.scale.is_some() || p.rotation.is_some() {
        let base = kept(t.transform, TextureTransform::identity());
        Some(
            TextureTransform {
                offset: kept(p.offset, base.offset),
                scale: kept(p.scale, base.scale),
                rotation: kept(p.rotation, base.rotation),
            },
        )
    } else {
        t.transform
    };
    let sampler = if p.wrap_u.is_some() || p.wrap_v.is_some() || p.mag_filter.is_some()
        || p.min_filter.is_some() || p.mipmap_filter.is_some() {
        let base = kept(t.sampler, TextureSampler::standard());
        Some(
            TextureSampler {
                wrap_u: kept(p.wrap_u, base.wrap_u),
                wrap_v: kept(p.wrap_v, base.wrap_v),
                mag_filter: kept(p.mag_filter, base.mag_filter),
                min_filter: kept(p.min_filter, base.min_filter),
                mipmap_filter: kept(p.mipmap_filter, base.mipmap_filter),
            },
        )
    } else {
        t.sampler
    };
    let flow = match p.flow {
        Some(f) => Some(f),
        None => t.flow,
    };
    TextureRef {
        asset: t.asset,
        uv_index: kept(p.uv_set, t.uv_index),
        transform,
        sampler,
        flow,
        export_profile: t.export_profile,
    }
}

/// What a mesh carries of a library material: a copy of its definition that
/// the mesh may change, and overrides by slot name.
pub struct MaterialInstance {
    pub asset: AssetId,
    pub inline: MaterialDef,
    pub uniform_overrides: SlotMap<UniformValue>,
    pub texture_overrides: SlotMap<TextureRef>,
    pub buffer_overrides: SlotMap<AssetId>,
}

impl Same for MaterialInstance {
    fn same(&self) -> (res: Self) {
        MaterialInstance {
            asset: self.asset,
            inline: self.inline.same(),
            uniform_overrides: self.uniform_overrides.clone(),
            texture_overrides: self.texture_overrides.clone(),
            buffer_overrides: self.buffer_overrides.clone(),
        }
    }
}

impl MaterialInstance {
    /// An instance without overrides.
    pub fn fresh(asset: AssetId, inline: MaterialDef) -> (r: MaterialInstance)
        ensures
            r.asset == asset,
            r.inline == inline,
            r.uniform_overrides@ == Map::<Seq<char>, UniformValue>::empty(),
            r.texture_overrides@ == Map::<Seq<char>, TextureRef>::empty(),
            r.buffer_overrides@ == Map::<Seq<char>, AssetId>::empty(),
    {
        MaterialInstance {
            asset,
            inline,
            uniform_overrides: SlotMap::empty(),
            texture_overrides: SlotMap::empty(),
            buffer_overrides: SlotMap::empty(),
        }
    }
}

/// A named entry of a palette.
pub struct MaterialVariant {
    pub id: VariantId,
    pub name: String,
    pub instance: MaterialInstance,
}

impl Same for MaterialVariant {
    fn same(&self) -> (res: Self) {
        MaterialVariant { id: self.id, name: self.name.clone(), instance: self.instance.same() }
    }
}

/// The materials that a mesh can render with, and the one that it does.
pub struct Palette {
    pub variants: List<MaterialVariant>,
    pub selected: Option<VariantId>,
}

impl Same for Palette {
    fn same(&self) -> (res: Self) {
        Palette { variants: self.variants.clone(), selected: self.selected }
    }
}

/// Whether a variant has a given id.
pub open spec fn has_id(id: VariantId) -> spec_fn(MaterialVariant) -> bool {
    |v: MaterialVariant| v.id == id
}

impl Palette {
    /// The position of a variant, or the number of variants.
    pub open spec fn place(self, id: VariantId) -> int {
        first(self.variants@, has_id(id))
    }

    /// Whether the selected variant is one of the palette's.
    pub open spec fn assigned(self) -> bool {
        self.selected is Some && self.place(self.selected->0) < self.variants@.len()
    }

    /// The instance that renders, where the palette is assigned.
    pub open spec fn current(self) -> MaterialInstance {
        self.variants@[self.place(self.selected->0)].instance
    }

    /// Whether `self` is `before` with the rendering instance replaced.
    pub open spec fn replaces_current(self, before: Palette, inst: MaterialInstance) -> bool {
        &&& self.selected == before.selected
        &&& self.variants@ == before.variants@.update(
            before.place(before.selected->0),
            MaterialVariant {
                instance: inst,
                ..before.variants@[before.place(before.selected->0)]
            },
        )
    }

    /// A palette with nothing in it.
    pub fn empty() -> (p: Palette)
        ensures
            p.variants@.len() == 0,
            p.selected is None,
    {
        Palette { variants: List::empty(), selected: None }
    }

    /// The position of the variant `id`.
    pub fn position(&self, id: VariantId) -> (r: Option<usize>)
        ensures
            match r {
                Some(i) => i < self.variants@.len() && self.place(id) == i
                    && self.variants@[i as int].id == id,
                None => self.place(id) == self.variants@.len(),
            },
    {
        let mut i: usize = 0;
        while i < self.variants.len()
            invariant
                i <= self.variants@.len(),
                forall|j: int| 0 <= j < i ==> !has_id(id)(#[trigger] self.variants@[j]),
            decreases self.variants@.len() - i,
        {
            if self.variants.at(i).id == id {
                proof {
                    lemma_first_is(self.variants@, has_id(id), i as int);
                }
                return Some(i);
            }
            i += 1;
        }
        proof {
            lemma_first_is(self.variants@, has_id(id), i as int);
        }
        None
    }

    fn selected_position(&self) -> (r: Option<usize>)
        ensures
            match r {
                Some(i) => self.assigned() && i < self.variants@.len() && self.place(
                    self.selected->0,
                ) == i,
                None => !self.assigned(),
            },
    {
        match self.selected {
            Some(id) => self.position(id),
            None => None,
        }
    }

    /// The instance that renders, if one does.
    pub fn selected_material(&self) -> (r: Option<&MaterialInstance>)
        ensures
            match r {
                Some(inst) => self.assigned() && *inst == self.current(),
                None => !self.assigned(),
            },
    {
        match self.selected_position() {
            Some(i) => Some(&self.variants.at(i).instance),
            None => None,
        }
    }

    /// Replaces the instance that renders.
    pub fn set_current(&mut self, inst: MaterialInstance)
        requires
            old(self).assigned(),
        ensures
            final(self).replaces_current(*old(self), inst),
            final(self).assigned(),
            final(self).current() == inst,
    {
        let pos = self.selected_position();
        if let Some(i) = pos {
            let v = self.variants.at(i);
            let next = MaterialVariant { id: v.id, name: v.name.clone(), instance: inst };
            self.variants = self.variants.with(i, next);
            proof {
                law_replaced_instance_renders(*old(self), *self, inst);
            }
        }
    }
}

/// A palette keeps its selection, and its variants their ids and names, when the
/// rendering instance is replaced; the instance is then the one that renders.
pub proof fn law_replaced_instance_renders(before: Palette, after: Palette, inst: MaterialInstance)
    requires
        before.assigned(),
        after.replaces_current(before, inst),
    ensures
        after.assigned(),
        after.current() == inst,
        after.variants@.len() == before.variants@.len(),
        forall|i: int|
            0 <= i < before.variants@.len() ==> after.variants@[i].id == before.variants@[i].id
                && (#[trigger] after.variants@[i]).name == before.variants@[i].name,
{
    let id = before.selected->0;
    let k = before.place(id);
    lemma_first(before.variants@, has_id(id));
    assert forall|j: int| 0 <= j < k implies !has_id(id)(#[trigger] after.variants@[j]) by {
        assert(!has_id(id)(before.variants@[j]));
    }
    lemma_first_is(after.variants@, has_id(id), k);
}

} // verus!
