//! What a scene node is: its kind with the kind's settings, and the edits that
//! the editor makes to a kind.
use crate::custom_material::UniformValue;
use crate::errors::EditorError;
use crate::ids::{hyphenated, id_text, AssetId, NodeId, VariantId};
use crate::list::{List, Same};
use crate::material::{MaterialShading, TextureRef, TextureUseProfile};
use crate::palette::law_replaced_instance_renders;
use crate::palette::{
    builtin_slot, builtin_slot_named, kept, or_kept, param_patched, param_width, patch_def_param,
    patch_texture, texture_patched, BuiltinParamKind, BuiltinTextureSlot, MaterialInstance,
    MaterialVariant, Palette, TexturePatch,
};
use crate::values::{Trs, Vec2, Vec3, Vec4, F32};
use vstd::prelude::*;
use vstd::string::*;

verus! {

/// Whether a mesh casts and receives shadows.
#[derive(Clone, Copy, PartialEq, Eq, Structural, Debug)]
pub struct ShadowFlags {
    pub cast: bool,
    pub receive: bool,
}

impl ShadowFlags {
    #[verifier::allow_in_spec]
    pub fn standard() -> ShadowFlags
        returns
            (ShadowFlags { cast: true, receive: true }),
    {
        ShadowFlags { cast: true, receive: true }
    }
}

/// How a mesh picks its level of detail.
#[derive(Clone, Copy, PartialEq, Eq, Structural, Debug)]
pub struct LodSettings {
    pub levels: u32,
}

impl LodSettings {
    #[verifier::allow_in_spec]
    pub fn standard() -> LodSettings
        returns
            (LodSettings { levels: 0 }),
    {
        LodSettings { levels: 0 }
    }
}

/// A bone of a rig: the node that poses it, and its index in the rig file.
#[derive(Clone, Copy, PartialEq, Eq, Structural, Debug)]
pub struct SkinJoint {
    pub node: NodeId,
    pub index: u32,
}

impl Same for SkinJoint {
    fn same(&self) -> (res: Self) {
        *self
    }
}

/// Where the skinned geometry of a node comes from.
pub struct SkinnedMeshRef {
    pub source: AssetId,
    pub node_index: u32,
    pub rig_node_index: u32,
    pub primitive_index: Option<u32>,
    pub joints: List<SkinJoint>,
}

impl Same for SkinnedMeshRef {
    fn same(&self) -> (res: Self) {
        SkinnedMeshRef {
            source: self.source,
            node_index: self.node_index,
            rig_node_index: self.rig_node_index,
            primitive_index: self.primitive_index,
            joints: self.joints.clone(),
        }
    }
}

#[derive(Clone, Copy, PartialEq, Eq, Structural, Debug)]
pub enum LightConfig {
    Directional { color: Vec3, intensity: F32 },
    Point { color: Vec3, intensity: F32, range: F32 },
    Spot { color: Vec3, intensity: F32, range: F32, inner_angle: F32, outer_angle: F32 },
}

#[derive(Clone, Copy, PartialEq, Eq, Structural, Debug)]
pub enum LightParamKind {
    Color,
    Intensity,
    Range,
    InnerAngle,
    OuterAngle,
}

#[derive(Clone, Copy, PartialEq, Eq, Structural, Debug)]
pub enum CameraProjection {
    Perspective { fov_y: F32 },
    Orthographic { half_height: F32 },
}

#[derive(Clone, Copy, PartialEq, Eq, Structural, Debug)]
pub struct CameraConfig {
    pub projection: CameraProjection,
    pub near: F32,
    pub far: F32,
    pub aperture: F32,
    pub focus_distance: F32,
}

/// What stands for a node in collisions.
#[allow(inconsistent_fields)]
pub enum ColliderShape {
    Box { half_extents: Vec3 },
    Ellipsoid { half_extents: Vec3 },
    Sphere { radius: F32 },
    Capsule { half_height: F32, radius: F32 },
    Cylinder { half_height: F32, radius: F32 },
    Cone { half_height: F32, radius: F32 },
    /// The convex hull of some points.
    ConvexHull { points: List<Vec3> },
}

impl Same for ColliderShape {
    fn same(&self) -> (res: Self) {
        match self {
            ColliderShape::Box { half_extents } => ColliderShape::Box {
                half_extents: *half_extents,
            },
            ColliderShape::Ellipsoid { half_extents } => ColliderShape::Ellipsoid {
                half_extents: *half_extents,
            },
            ColliderShape::Sphere { radius } => ColliderShape::Sphere { radius: *radius },
            ColliderShape::Capsule { half_height, radius } => ColliderShape::Capsule {
                half_height: *half_height,
                radius: *radius,
            },
            ColliderShape::Cylinder { half_height, radius } => ColliderShape::Cylinder {
                half_height: *half_height,
                radius: *radius,
            },
            ColliderShape::Cone { half_height, radius } => ColliderShape::Cone {
                half_height: *half_height,
                radius: *radius,
            },
            ColliderShape::ConvexHull { points } => ColliderShape::ConvexHull {
                points: points.clone(),
            },
        }
    }
}

/// Copies of one mesh, placed by hand.
pub struct InstancerDef {
    pub mesh: AssetId,
    pub transforms: List<Trs>,
    pub per_instance_colors: List<Vec4>,
}

impl Same for InstancerDef {
    fn same(&self) -> (res: Self) {
        InstancerDef {
            mesh: self.mesh,
            transforms: self.transforms.clone(),
            per_instance_colors: self.per_instance_colors.clone(),
        }
    }
}

#[derive(Clone, Copy, PartialEq, Eq, Structural, Debug)]
pub enum EmitterSpace {
    Local,
    World,
}

#[derive(Clone, Copy, PartialEq, Eq, Structural, Debug)]
pub enum EmitterShape {
    Point,
    Sphere { radius: F32 },
    Cone { angle: F32, radius: F32 },
    Box { half_extents: Vec3 },
}

#[derive(Clone, Copy, PartialEq, Eq, Structural, Debug)]
pub enum ParticleBlend {
    Alpha,
    Additive,
}

/// A particle emitter.
pub struct EmitterDef {
    pub spawn_rate: F32,
    pub burst_count: u32,
    pub max_alive: u32,
    pub one_shot: bool,
    pub space: EmitterSpace,
    pub shape: EmitterShape,
    pub initial_speed: Vec2,
    pub lifetime: Vec2,
    pub size: Vec2,
    pub forces: List<Vec3>,
    pub color_over_life: List<Vec4>,
    pub size_over_life: List<Vec2>,
    pub blend: ParticleBlend,
    pub texture: Option<TextureRef>,
}

impl Same for EmitterDef {
    fn same(&self) -> (res: Self) {
        EmitterDef {
            spawn_rate: self.spawn_rate,
            burst_count: self.burst_count,
            max_alive: self.max_alive,
            one_shot: self.one_shot,
            space: self.space,
            shape: self.shape,
            initial_speed: self.initial_speed,
            lifetime: self.lifetime,
            size: self.size,
            forces: self.forces.clone(),
            color_over_life: self.color_over_life.clone(),
            size_over_life: self.size_over_life.clone(),
            blend: self.blend,
            texture: self.texture,
        }
    }
}

/// A change to an emitter; a field that is `None` stays. A texture given as
/// `Some(None)` is cleared.
pub struct EmitterPatch {
    pub spawn_rate: Option<F32>,
    pub burst_count: Option<u32>,
    pub max_alive: Option<u32>,
    pub one_shot: Option<bool>,
    pub space: Option<EmitterSpace>,
    pub shape: Option<EmitterShape>,
    pub initial_speed: Option<Vec2>,
    pub lifetime: Option<Vec2>,
    pub size: Option<Vec2>,
    pub forces: Option<List<Vec3>>,
    pub color_over_life: Option<List<Vec4>>,
    pub size_over_life: Option<List<Vec2>>,
    pub blend: Option<ParticleBlend>,
    pub texture: Option<Option<AssetId>>,
}

/// The emitter after a patch.
pub open spec fn emitter_patched(d: EmitterDef, p: EmitterPatch) -> EmitterDef {
    EmitterDef {
        spawn_rate: or_kept(p.spawn_rate, d.spawn_rate),
        burst_count: or_kept(p.burst_count, d.burst_count),
        max_alive: or_kept(p.max_alive, d.max_alive),
        one_shot: or_kept(p.one_shot, d.one_shot),
        space: or_kept(p.space, d.space),
        shape: or_kept(p.shape, d.shape),
        initial_speed: or_kept(p.initial_speed, d.initial_speed),
        lifetime: or_kept(p.lifetime, d.lifetime),
        size: or_kept(p.size, d.size),
        forces: or_kept(p.forces, d.forces),
        color_over_life: or_kept(p.color_over_life, d.color_over_life),
        size_over_life: or_kept(p.size_over_life, d.size_over_life),
        blend: or_kept(p.blend, d.blend),
        texture: match p.texture {
            Some(Some(asset)) => Some(TextureRef::new(asset)),
            Some(None) => None,
            None => d.texture,
        },
    }
}

fn kept_list<T>(patch: &Option<List<T>>, before: &List<T>) -> (r: List<T>)
    ensures
        r == or_kept(*patch, *before),
{
    match patch {
        Some(l) => l.clone(),
        None => before.clone(),
    }
}

/// Applies a patch to an emitter.
pub fn patch_emitter(d: &EmitterDef, p: &EmitterPatch) -> (r: EmitterDef)
    ensures
        r == emitter_patched(*d, *p),
{
    let texture = match p.texture {
        Some(Some(asset)) => Some(TextureRef::new(asset)),
        Some(None) => None,
        None => d.texture,
    };
    EmitterDef {
        spawn_rate: kept(p.spawn_rate, d.spawn_rate),
        burst_count: kept(p.burst_count, d.burst_count),
        max_alive: kept(p.max_alive, d.max_alive),
        one_shot: kept(p.one_shot, d.one_shot),
        space: kept(p.space, d.space),
        shape: kept(p.shape, d.shape),
        initial_speed: kept(p.initial_speed, d.initial_speed),
        lifetime: kept(p.lifetime, d.lifetime),
        size: kept(p.size, d.size),
        forces: kept_list(&p.forces, &d.forces),
        color_over_life: kept_list(&p.color_over_life, &d.color_over_life),
        size_over_life: kept_list(&p.size_over_life, &d.size_over_life),
        blend: kept(p.blend, d.blend),
        texture,
    }
}

/// What a node is.
pub enum NodeKind {
    Group,
    Mesh { mesh: AssetId, palette: Palette, shadow: ShadowFlags, lod: LodSettings },
    SkinnedMesh { skin: SkinnedMeshRef, palette: Palette, shadow: ShadowFlags, lod: LodSettings },
    ClusterMesh { source: AssetId, palette: Palette, shadow: ShadowFlags },
    Light(LightConfig),
    Camera(CameraConfig),
    Collider(ColliderShape),
    Instancer(InstancerDef),
    ParticleEmitter(EmitterDef),
    /// Any other kind: its label and its settings, which the editor carries
    /// without reading them.
    Other { label: String, payload: List<u8> },
}

impl Same for NodeKind {
    fn same(&self) -> (res: Self) {
        match self {
            NodeKind::Group => NodeKind::Group,
            NodeKind::Mesh { mesh, palette, shadow, lod } => NodeKind::Mesh {
                mesh: *mesh,
                palette: palette.same(),
                shadow: *shadow,
                lod: *lod,
            },
            NodeKind::SkinnedMesh { skin, palette, shadow, lod } => NodeKind::SkinnedMesh {
                skin: skin.same(),
                palette: palette.same(),
                shadow: *shadow,
                lod: *lod,
            },
            NodeKind::ClusterMesh { source, palette, shadow } => NodeKind::ClusterMesh {
                source: *source,
                palette: palette.same(),
                shadow: *shadow,
            },
            NodeKind::Light(l) => NodeKind::Light(*l),
            NodeKind::Camera(c) => NodeKind::Camera(*c),
            NodeKind::Collider(c) => NodeKind::Collider(c.same()),
            NodeKind::Instancer(d) => NodeKind::Instancer(d.same()),
            NodeKind::ParticleEmitter(d) => NodeKind::ParticleEmitter(d.same()),
            NodeKind::Other { label, payload } => NodeKind::Other {
                label: label.clone(),
                payload: payload.clone(),
            },
        }
    }
}

impl NodeKind {
    /// The palette of a kind that has one.
    pub open spec fn palette_of(self) -> Option<Palette> {
        match self {
            NodeKind::Mesh { palette, .. } => Some(palette),
            NodeKind::SkinnedMesh { palette, .. } => Some(palette),
            NodeKind::ClusterMesh { palette, .. } => Some(palette),
            _ => None,
        }
    }

    /// The kind with another palette, where it has one.
    pub open spec fn with_palette(self, p: Palette) -> NodeKind {
        match self {
            NodeKind::Mesh { mesh, palette, shadow, lod } => NodeKind::Mesh {
                mesh,
                palette: p,
                shadow,
                lod,
            },
            NodeKind::SkinnedMesh { skin, palette, shadow, lod } => NodeKind::SkinnedMesh {
                skin,
                palette: p,
                shadow,
                lod,
            },
            NodeKind::ClusterMesh { source, palette, shadow } => NodeKind::ClusterMesh {
                source,
                palette: p,
                shadow,
            },
            other => other,
        }
    }

    /// Whether the kind renders with one of its palette's materials.
    pub open spec fn assigned(self) -> bool {
        self.palette_of() is Some && self.palette_of()->0.assigned()
    }

    /// The instance that the kind renders with, where it does.
    pub open spec fn current(self) -> MaterialInstance {
        self.palette_of()->0.current()
    }

    /// Whether `self` is `before` with the rendering instance replaced and
    /// nothing else changed.
    pub open spec fn replaces_current(self, before: NodeKind, inst: MaterialInstance) -> bool {
        &&& self.palette_of() is Some
        &&& self == before.with_palette(self.palette_of()->0)
        &&& self.palette_of()->0.replaces_current(before.palette_of()->0, inst)
    }

    /// The palette of a kind that has one.
    pub fn palette(&self) -> (r: Option<&Palette>)
        ensures
            match r {
                Some(p) => self.palette_of() == Some(*p),
                None => self.palette_of() is None,
            },
    {
        match self {
            NodeKind::Mesh { palette, .. } => Some(palette),
            NodeKind::SkinnedMesh { palette, .. } => Some(palette),
            NodeKind::ClusterMesh { palette, .. } => Some(palette),
            _ => None,
        }
    }

    /// The kind with another palette.
    pub fn set_palette(&mut self, p: Palette)
        ensures
            *final(self) == old(self).with_palette(p),
    {
        match self {
            NodeKind::Mesh { palette, .. } => {
                *palette = p;
            },
            NodeKind::SkinnedMesh { palette, .. } => {
                *palette = p;
            },
            NodeKind::ClusterMesh { palette, .. } => {
                *palette = p;
            },
            _ => {},
        }
    }

    /// The instance that the kind renders with.
    pub fn selected_material(&self) -> (r: Option<&MaterialInstance>)
        ensures
            match r {
                Some(inst) => self.assigned() && *inst == self.current(),
                None => !self.assigned(),
            },
    {
        match self.palette() {
            Some(p) => p.selected_material(),
            None => None,
        }
    }

    /// Replaces the instance that the kind renders with.
    pub fn set_current(&mut self, inst: MaterialInstance)
        requires
            old(self).assigned(),
        ensures
            final(self).replaces_current(*old(self), inst),
            final(self).assigned(),
            final(self).current() == inst,
    {
        let before = match self.palette() {
            Some(p) => Some(p.same()),
            None => None,
        };
        if let Some(mut p) = before {
            p.set_current(inst);
            self.set_palette(p);
        }
    }

    /// What the kind is called.
    pub open spec fn label_text(self) -> Seq<char> {
        match self {
            NodeKind::Group => "Group"@,
            NodeKind::Mesh { .. } => "Mesh"@,
            NodeKind::SkinnedMesh { .. } => "Skinned Mesh"@,
            NodeKind::ClusterMesh { .. } => "Cluster Mesh"@,
            NodeKind::Light(_) => "Light"@,
            NodeKind::Camera(_) => "Camera"@,
            NodeKind::Collider(_) => "Collider"@,
            NodeKind::Instancer(_) => "Instancer"@,
            NodeKind::ParticleEmitter(_) => "Particle Emitter"@,
            NodeKind::Other { label, .. } => label@,
        }
    }

    /// What the kind is called.
    pub fn label(&self) -> (r: String)
        ensures
            r@ == self.label_text(),
    {
        match self {
            NodeKind::Group => "Group".to_owned(),
            NodeKind::Mesh { .. } => "Mesh".to_owned(),
            NodeKind::SkinnedMesh { .. } => "Skinned Mesh".to_owned(),
            NodeKind::ClusterMesh { .. } => "Cluster Mesh".to_owned(),
            NodeKind::Light(_) => "Light".to_owned(),
            NodeKind::Camera(_) => "Camera".to_owned(),
            NodeKind::Collider(_) => "Collider".to_owned(),
            NodeKind::Instancer(_) => "Instancer".to_owned(),
            NodeKind::ParticleEmitter(_) => "Particle Emitter".to_owned(),
            NodeKind::Other { label, .. } => label.clone(),
        }
    }
}

/// What is reported of a node that carries no material: geometry is
/// `"unassigned"` (it renders as the magenta sentinel, not invisibly), anything
/// else is `"none"`.
pub fn unassigned_material_kind(kind: &NodeKind) -> (r: &'static str)
    ensures
        r@ == if kind is Mesh || kind is SkinnedMesh {
            "unassigned"@
        } else {
            "none"@
        },
{
    match kind {
        NodeKind::Mesh { .. } => "unassigned",
        NodeKind::SkinnedMesh { .. } => "unassigned",
        _ => "none",
    }
}

/// Sets a factor of the built-in definition that a node renders with. Returns
/// false, and changes nothing, where the node is unassigned or `value` is too
/// short. `count` is the first number rounded to a whole number, for the factors
/// that count bands or steps; there is at least one of them.
pub fn patch_builtin_param(
    kind: &mut NodeKind,
    param: BuiltinParamKind,
    value: &Vec<F32>,
    count: u32,
) -> (r: bool)
    ensures
        r == (old(kind).assigned() && value@.len() >= param_width(param)),
        r ==> final(kind).replaces_current(
            *old(kind),
            (MaterialInstance {
                inline: param_patched(old(kind).current().inline, param, value@, count),
                ..old(kind).current()
            }),
        ),
        !r ==> *final(kind) == *old(kind),
{
    let mut inst = match kind.selected_material() {
        Some(inst) => inst.same(),
        None => return false,
    };
    if !patch_def_param(&mut inst.inline, param, value, count) {
        return false;
    }
    kind.set_current(inst);
    true
}

/// Binds a texture to a built-in slot of the material that a node renders with,
/// or clears the slot. Returns false where the node is unassigned.
pub fn patch_builtin_texture(
    kind: &mut NodeKind,
    slot: BuiltinTextureSlot,
    texture: Option<AssetId>,
) -> (r: bool)
    ensures
        r == old(kind).assigned(),
        r ==> final(kind).replaces_current(
            *old(kind),
            (MaterialInstance {
                inline: old(kind).current().inline.with_texture(
                    slot,
                    match texture {
                        Some(a) => Some(TextureRef::new(a)),
                        None => None,
                    },
                ),
                ..old(kind).current()
            }),
        ),
        !r ==> *final(kind) == *old(kind),
{
    let mut inst = match kind.selected_material() {
        Some(inst) => inst.same(),
        None => return false,
    };
    let tref = match texture {
        Some(a) => Some(TextureRef::new(a)),
        None => None,
    };
    inst.inline.set_texture(slot, tref);
    kind.set_current(inst);
    true
}

/// Changes how a built-in slot samples its texture: only the fields given.
/// Refused where the node is unassigned or nothing is bound at the slot.
pub fn patch_builtin_texture_transform(
    kind: &mut NodeKind,
    slot: BuiltinTextureSlot,
    patch: &TexturePatch,
) -> (r: Result<(), EditorError>)
    ensures
        match r {
            Ok(_) => {
                &&& old(kind).assigned()
                &&& old(kind).current().inline.texture_in(slot) is Some
                &&& final(kind).replaces_current(
                    *old(kind),
                    (MaterialInstance {
                        inline: old(kind).current().inline.with_texture(
                            slot,
                            Some(
                                texture_patched(
                                    old(kind).current().inline.texture_in(slot)->0,
                                    *patch,
                                ),
                            ),
                        ),
                        ..old(kind).current()
                    }),
                )
            },
            Err(e) => {
                &&& *final(kind) == *old(kind)
                &&& e == if !old(kind).assigned() {
                    EditorError::NoBuiltinMaterial
                } else {
                    EditorError::SlotUnbound(slot)
                }
                &&& old(kind).assigned() ==> old(kind).current().inline.texture_in(slot) is None
            },
        },
{
    let mut inst = match kind.selected_material() {
        Some(inst) => inst.same(),
        None => return Err(EditorError::NoBuiltinMaterial),
    };
    match inst.inline.texture(slot) {
        None => Err(EditorError::SlotUnbound(slot)),
        Some(t) => {
            let next = patch_texture(t, patch);
            inst.inline.set_texture(slot, Some(next));
            kind.set_current(inst);
            Ok(())
        },
    }
}

/// The texture that a node's material binds at a slot: a built-in slot by its
/// name, else an override of the custom material.
pub open spec fn bound_texture(inst: MaterialInstance, slot: Seq<char>) -> Option<TextureRef> {
    match builtin_slot_named(slot) {
        Some(s) => inst.inline.texture_in(s),
        None => if inst.texture_overrides@.dom().contains(slot) {
            Some(inst.texture_overrides@[slot])
        } else {
            None
        },
    }
}

/// Whether `after` is `before` with `tref` bound at a slot.
pub open spec fn rebinds(
    before: MaterialInstance,
    after: MaterialInstance,
    slot: Seq<char>,
    tref: TextureRef,
) -> bool {
    match builtin_slot_named(slot) {
        Some(s) => after == (MaterialInstance {
            inline: before.inline.with_texture(s, Some(tref)),
            ..before
        }),
        None => {
            &&& after == (MaterialInstance {
                texture_overrides: after.texture_overrides,
                ..before
            })
            &&& after.texture_overrides@ == before.texture_overrides@.insert(slot, tref)
        },
    }
}

/// Sets or clears the export profile of the texture bound at a slot. Refused
/// where the node is unassigned or nothing is bound there.
pub fn patch_texture_use_profile(
    kind: &mut NodeKind,
    slot: &str,
    profile: Option<TextureUseProfile>,
) -> (r: Result<(), EditorError>)
    ensures
        match r {
            Ok(_) => {
                let before = old(kind).current();
                &&& old(kind).assigned()
                &&& bound_texture(before, slot@) is Some
                &&& final(kind).replaces_current(*old(kind), final(kind).current())
                &&& rebinds(
                    before,
                    final(kind).current(),
                    slot@,
                    (TextureRef { export_profile: profile, ..bound_texture(before, slot@)->0 }),
                )
            },
            Err(EditorError::NoMaterialAssigned) => !old(kind).assigned() && *final(kind) == *old(
                kind,
            ),
            Err(EditorError::NamedSlotUnbound(name)) => {
                &&& old(kind).assigned()
                &&& bound_texture(old(kind).current(), slot@) is None
                &&& name@ == slot@
                &&& *final(kind) == *old(kind)
            },
            Err(_) => false,
        },
{
    let mut inst = match kind.selected_material() {
        Some(inst) => inst.same(),
        None => return Err(EditorError::NoMaterialAssigned),
    };
    let ghost before = inst;
    match builtin_slot(slot) {
        Some(s) => match inst.inline.texture(s) {
            Some(t) => {
                let next = TextureRef { export_profile: profile, ..t };
                inst.inline.set_texture(s, Some(next));
                assert(rebinds(before, inst, slot@, next));
                kind.set_current(inst);
                Ok(())
            },
            None => Err(EditorError::NamedSlotUnbound(slot.to_owned())),
        },
        None => match inst.texture_overrides.get(slot) {
            Some(t) => {
                let next = TextureRef { export_profile: profile, ..t };
                inst.texture_overrides = inst.texture_overrides.insert(slot, next);
                assert(rebinds(before, inst, slot@, next));
                kind.set_current(inst);
                Ok(())
            },
            None => Err(EditorError::NamedSlotUnbound(slot.to_owned())),
        },
    }
}

/// Whether `after` is `before` but for the texture overrides, which are `want`.
pub open spec fn retextured(
    before: MaterialInstance,
    after: MaterialInstance,
    want: Map<Seq<char>, TextureRef>,
) -> bool {
    &&& after == (MaterialInstance { texture_overrides: after.texture_overrides, ..before })
    &&& after.texture_overrides@ == want
}

/// Binds a texture to a named slot of the custom material that a node renders
/// with, or takes the override away. Returns false where the node is
/// unassigned.
pub fn patch_material_texture(kind: &mut NodeKind, slot: &str, texture: Option<AssetId>) -> (r:
    bool)
    ensures
        r == old(kind).assigned(),
        !r ==> *final(kind) == *old(kind),
        r ==> final(kind).replaces_current(*old(kind), final(kind).current()) && retextured(
                old(kind).current(),
                final(kind).current(),
                match texture {
                    Some(a) => old(kind).current().texture_overrides@.insert(
                        slot@,
                        TextureRef::new(a),
                    ),
                    None => old(kind).current().texture_overrides@.remove(slot@),
                },
            ),
{
    let mut inst = match kind.selected_material() {
        Some(inst) => inst.same(),
        None => return false,
    };
    let ghost before = inst;
    inst.texture_overrides = match texture {
        Some(a) => inst.texture_overrides.insert(slot, TextureRef::new(a)),
        None => inst.texture_overrides.remove(slot),
    };
    assert(retextured(before, inst, inst.texture_overrides@));
    kind.set_current(inst);
    true
}

/// Whether `after` is `before` but for the buffer overrides, which are `want`.
pub open spec fn rebuffered(
    before: MaterialInstance,
    after: MaterialInstance,
    want: Map<Seq<char>, AssetId>,
) -> bool {
    &&& after == (MaterialInstance { buffer_overrides: after.buffer_overrides, ..before })
    &&& after.buffer_overrides@ == want
}

/// Binds a buffer asset to a named slot of the custom material that a node
/// renders with, or takes the override away. Returns false where the node is
/// unassigned.
pub fn patch_material_buffer(kind: &mut NodeKind, slot: &str, buffer: Option<AssetId>) -> (r: bool)
    ensures
        r == old(kind).assigned(),
        !r ==> *final(kind) == *old(kind),
        r ==> final(kind).replaces_current(*old(kind), final(kind).current()) && rebuffered(
                old(kind).current(),
                final(kind).current(),
                match buffer {
                    Some(a) => old(kind).current().buffer_overrides@.insert(slot@, a),
                    None => old(kind).current().buffer_overrides@.remove(slot@),
                },
            ),
{
    let mut inst = match kind.selected_material() {
        Some(inst) => inst.same(),
        None => return false,
    };
    let ghost before = inst;
    inst.buffer_overrides = match buffer {
        Some(a) => inst.buffer_overrides.insert(slot, a),
        None => inst.buffer_overrides.remove(slot),
    };
    assert(rebuffered(before, inst, inst.buffer_overrides@));
    kind.set_current(inst);
    true
}

/// Whether `after` is `before` with one uniform overridden.
pub open spec fn uniform_set(
    before: MaterialInstance,
    after: MaterialInstance,
    name: Seq<char>,
    value: UniformValue,
) -> bool {
    &&& after == (MaterialInstance { uniform_overrides: after.uniform_overrides, ..before })
    &&& after.uniform_overrides@ == before.uniform_overrides@.insert(name, value)
}

/// Overrides a uniform of the material that a node renders with. Returns false
/// where the node is unassigned.
pub fn patch_material_uniform(kind: &mut NodeKind, name: &str, value: UniformValue) -> (r: bool)
    ensures
        r == old(kind).assigned(),
        !r ==> *final(kind) == *old(kind),
        r ==> final(kind).replaces_current(*old(kind), final(kind).current()) && uniform_set(
                old(kind).current(),
                final(kind).current(),
                name@,
                value,
            ),
{
    let mut inst = match kind.selected_material() {
        Some(inst) => inst.same(),
        None => return false,
    };
    let ghost before = inst;
    inst.uniform_overrides = inst.uniform_overrides.insert(name, value);
    assert(uniform_set(before, inst, name@, value));
    kind.set_current(inst);
    true
}

/// The light with a parameter set, where the parameter applies to the light
/// and `value` is long enough.
pub open spec fn light_patched(cfg: LightConfig, param: LightParamKind, value: Seq<F32>) -> Option<
    LightConfig,
> {
    if value.len() < 1 || (param == LightParamKind::Color && value.len() < 3) {
        None
    } else {
        let v = value[0];
        match (param, cfg) {
            (LightParamKind::Color, LightConfig::Directional { intensity, .. }) => Some(
                LightConfig::Directional {
                    color: Vec3 { x: v, y: value[1], z: value[2] },
                    intensity,
                },
            ),
            (LightParamKind::Color, LightConfig::Point { intensity, range, .. }) => Some(
                LightConfig::Point {
                    color: Vec3 { x: v, y: value[1], z: value[2] },
                    intensity,
                    range,
                },
            ),
            (
                LightParamKind::Color,
                LightConfig::Spot { intensity, range, inner_angle, outer_angle, .. },
            ) => Some(
                LightConfig::Spot {
                    color: Vec3 { x: v, y: value[1], z: value[2] },
                    intensity,
                    range,
                    inner_angle,
                    outer_angle,
                },
            ),
            (LightParamKind::Intensity, LightConfig::Directional { color, .. }) => Some(
                LightConfig::Directional { color, intensity: v },
            ),
            (LightParamKind::Intensity, LightConfig::Point { color, range, .. }) => Some(
                LightConfig::Point { color, intensity: v, range },
            ),
            (
                LightParamKind::Intensity,
                LightConfig::Spot { color, range, inner_angle, outer_angle, .. },
            ) => Some(LightConfig::Spot { color, intensity: v, range, inner_angle, outer_angle }),
            (LightParamKind::Range, LightConfig::Point { color, intensity, .. }) => Some(
                LightConfig::Point { color, intensity, range: v },
            ),
            (
                LightParamKind::Range,
                LightConfig::Spot { color, intensity, inner_angle, outer_angle, .. },
            ) => Some(
                LightConfig::Spot { color, intensity, range: v, inner_angle, outer_angle },
            ),
            (
                LightParamKind::InnerAngle,
                LightConfig::Spot { color, intensity, range, outer_angle, .. },
            ) => Some(
                LightConfig::Spot { color, intensity, range, inner_angle: v, outer_angle },
            ),
            (
                LightParamKind::OuterAngle,
                LightConfig::Spot { color, intensity, range, inner_angle, .. },
            ) => Some(
                LightConfig::Spot { color, intensity, range, inner_angle, outer_angle: v },
            ),
            _ => None,
        }
    }
}

/// Sets a parameter of a light. Returns false, and changes nothing, where the
/// parameter does not apply to the light or `value` is too short.
pub fn patch_light_param(cfg: &mut LightConfig, param: LightParamKind, value: &Vec<F32>) -> (r:
    bool)
    ensures
        match light_patched(*old(cfg), param, value@) {
            Some(next) => r && *final(cfg) == next,
            None => !r && *final(cfg) == *old(cfg),
        },
{
    if value.len() < 1 {
        return false;
    }
    let v = value[0];
    match param {
        LightParamKind::Color => {
            if value.len() < 3 {
                return false;
            }
            let c = Vec3 { x: value[0], y: value[1], z: value[2] };
            match cfg {
                LightConfig::Directional { color, .. } => {
                    *color = c;
                },
                LightConfig::Point { color, .. } => {
                    *color = c;
                },
                LightConfig::Spot { color, .. } => {
                    *color = c;
                },
            }
            true
        },
        LightParamKind::Intensity => {
            match cfg {
                LightConfig::Directional { intensity, .. } => {
                    *intensity = v;
                },
                LightConfig::Point { intensity, .. } => {
                    *intensity = v;
                },
                LightConfig::Spot { intensity, .. } => {
                    *intensity = v;
                },
            }
            true
        },
        LightParamKind::Range => match cfg {
            LightConfig::Point { range, .. } => {
                *range = v;
                true
            },
            LightConfig::Spot { range, .. } => {
                *range = v;
                true
            },
            LightConfig::Directional { .. } => false,
        },
        LightParamKind::InnerAngle => match cfg {
            LightConfig::Spot { inner_angle, .. } => {
                *inner_angle = v;
                true
            },
            _ => false,
        },
        LightParamKind::OuterAngle => match cfg {
            LightConfig::Spot { outer_angle, .. } => {
                *outer_angle = v;
                true
            },
            _ => false,
        },
    }
}

/// A palette written out: the id and the name of each variant.
pub open spec fn palette_text(vs: Seq<MaterialVariant>) -> Seq<char>
    decreases vs.len(),
{
    if vs.len() == 0 {
        seq![]
    } else if vs.len() == 1 {
        hyphenated(vs[0].id.0) + ":"@ + vs[0].name@
    } else {
        palette_text(vs.drop_last()) + ","@ + (hyphenated(vs.last().id.0) + ":"@ + vs.last().name@)
    }
}

/// How the material that a mesh renders with is shaded.
pub open spec fn shading_text(kind: NodeKind) -> Seq<char> {
    if !kind.assigned() {
        "none"@
    } else {
        match kind.current().inline.shading {
            MaterialShading::Pbr => "pbr"@,
            MaterialShading::Unlit => "unlit"@,
            MaterialShading::Toon { .. } => "toon"@,
            MaterialShading::FlipBook { .. } => "flipbook"@,
        }
    }
}

/// The selection of a palette written out.
pub open spec fn selected_text(p: Palette) -> Seq<char> {
    match p.selected {
        None => "None"@,
        Some(id) => "Some(VariantId("@ + hyphenated(id.0) + "))"@,
    }
}

/// The structural identity of a kind: what decides which rows its inspector
/// shows. It tells variants and palettes apart and ignores numbers.
pub open spec fn structure_text(kind: NodeKind) -> Seq<char> {
    match kind {
        NodeKind::Mesh { palette, .. } => "mesh/"@ + shading_text(kind) + "/"@ + selected_text(
            palette,
        ) + "/"@ + palette_text(palette.variants@),
        NodeKind::Camera(c) => match c.projection {
            CameraProjection::Perspective { .. } => "cam/persp"@,
            CameraProjection::Orthographic { .. } => "cam/ortho"@,
        },
        NodeKind::Light(l) => match l {
            LightConfig::Directional { .. } => "light/dir"@,
            LightConfig::Point { .. } => "light/point"@,
            LightConfig::Spot { .. } => "light/spot"@,
        },
        other => other.label_text(),
    }
}

fn palette_words(vs: &List<MaterialVariant>) -> (r: String)
    ensures
        r@ == palette_text(vs@),
{
    let mut s = String::new();
    let mut i: usize = 0;
    while i < vs.len()
        invariant
            i <= vs@.len(),
            s@ == palette_text(vs@.take(i as int)),
        decreases vs@.len() - i,
    {
        let v = vs.at(i);
        let id = id_text(v.id.0);
        let mut one = id;
        one.append(":");
        one.append(&v.name);
        proof {
            assert(vs@.take(i + 1).drop_last() == vs@.take(i as int));
            assert(vs@.take(i + 1).last() == *v);
            if i == 0 {
                assert(vs@.take(0) =~= seq![]);
                assert(s@ =~= seq![]);
                assert(s@ + one@ =~= one@);
            }
        }
        if i > 0 {
            s.append(",");
        }
        s.append(&one);
        i += 1;
    }
    assert(vs@.take(i as int) == vs@);
    s
}

/// The structural identity of a kind.
pub fn structure_key(kind: &NodeKind) -> (r: String)
    ensures
        r@ == structure_text(*kind),
{
    match kind {
        NodeKind::Mesh { palette, .. } => {
            let shading = match kind.selected_material() {
                None => "none",
                Some(inst) => match inst.inline.shading {
                    MaterialShading::Pbr => "pbr",
                    MaterialShading::Unlit => "unlit",
                    MaterialShading::Toon { .. } => "toon",
                    MaterialShading::FlipBook { .. } => "flipbook",
                },
            };
            let chosen = match palette.selected {
                None => "None".to_owned(),
                Some(id) => {
                    let t = id_text(id.0);
                    let mut c = "Some(VariantId(".to_owned();
                    c.append(&t);
                    c.append("))");
                    c
                },
            };
            let words = palette_words(&palette.variants);
            let mut s = "mesh/".to_owned();
            s.append(shading);
            s.append("/");
            s.append(&chosen);
            s.append("/");
            s.append(&words);
            s
        },
        NodeKind::Camera(c) => match c.projection {
            CameraProjection::Perspective { .. } => "cam/persp".to_owned(),
            CameraProjection::Orthographic { .. } => "cam/ortho".to_owned(),
        },
        NodeKind::Light(l) => match l {
            LightConfig::Directional { .. } => "light/dir".to_owned(),
            LightConfig::Point { .. } => "light/point".to_owned(),
            LightConfig::Spot { .. } => "light/spot".to_owned(),
        },
        _ => kind.label(),
    }
}

proof fn lemma_palette_text(a: Seq<MaterialVariant>, b: Seq<MaterialVariant>)
    requires
        a.len() == b.len(),
        forall|i: int| 0 <= i < a.len() ==> a[i].id == b[i].id && (#[trigger] a[i]).name == b[i].name,
    ensures
        palette_text(a) == palette_text(b),
    decreases a.len(),
{
    if a.len() > 1 {
        assert forall|i: int| 0 <= i < a.drop_last().len() implies a.drop_last()[i].id
            == b.drop_last()[i].id && (#[trigger] a.drop_last()[i]).name
            == b.drop_last()[i].name by {
            assert(a.drop_last()[i] == a[i]);
        }
        lemma_palette_text(a.drop_last(), b.drop_last());
    }
}

/// A numeric edit of a material or of a light never changes the structural
/// identity of the node, so an inspector is not rebuilt under a value that is
/// being dragged.
pub proof fn law_numeric_edits_keep_structure(
    before: NodeKind,
    after: NodeKind,
    param: BuiltinParamKind,
    value: Seq<F32>,
    count: u32,
    light: LightConfig,
    light_param: LightParamKind,
)
    requires
        before.assigned(),
        after.replaces_current(
            before,
            (MaterialInstance {
                inline: param_patched(before.current().inline, param, value, count),
                ..before.current()
            }),
        ),
    ensures
        structure_text(after) == structure_text(before),
        light_patched(light, light_param, value) matches Some(next) ==> structure_text(
            NodeKind::Light(next),
        ) == structure_text(NodeKind::Light(light)),
{
    let inst = MaterialInstance {
        inline: param_patched(before.current().inline, param, value, count),
        ..before.current()
    };
    law_replaced_instance_renders(before.palette_of()->0, after.palette_of()->0, inst);
    lemma_palette_text(after.palette_of()->0.variants@, before.palette_of()->0.variants@);
}

} // verus!
