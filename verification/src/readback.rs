//! Reading values back from the renderer: under which key a value is reported,
//! where it is found, and what it is for a key of a track.
use crate::animation_sync::{find_name, made, name_at, RenderNode, RenderState};
use crate::asset_template::{found, AssetTemplate, AssetTemplateNode};
use crate::clips::{CameraParamKind, TrackTarget, TrackValue, TransformProp};
use crate::custom_material::UniformValue;
use crate::dynamic::{MaterialShaderId, Registry, RegistryView};
use crate::find::{first, lemma_first_is};
use crate::ids::{hyphenated, id_text, AssetId, NodeId};
use crate::list::{List, Same};
use crate::node::{CameraConfig, CameraProjection, LightConfig, LightParamKind, NodeKind, SkinnedMeshRef};
use crate::palette::BuiltinParamKind;
use crate::table::Table;
use crate::text::{decimal, decimal_text, joined, joined3};
use crate::tree::{find, find_by_id, forest, lemma_model, Node, Tree};
use crate::values::{Trs, Vec2, Vec3, Vec4, F32};
use vstd::prelude::*;

verus! {

/// A value to read back.
#[allow(inconsistent_fields)]
pub enum ReadbackTarget {
    NodeLocalTrs { node: NodeId },
    NodeWorldMatrix { node: NodeId },
    MorphWeight { node: NodeId, index: usize },
    Uniform { material: AssetId, name: String },
    BuiltinParam { node: NodeId, param: BuiltinParamKind },
    LightParam { node: NodeId, param: LightParamKind },
    CameraParam { node: NodeId, param: CameraParamKind },
}

/// The name of a factor of a built-in material.
pub open spec fn builtin_name(p: BuiltinParamKind) -> Seq<char> {
    match p {
        BuiltinParamKind::BaseColor => "BaseColor"@,
        BuiltinParamKind::Emissive => "Emissive"@,
        BuiltinParamKind::Metallic => "Metallic"@,
        BuiltinParamKind::Roughness => "Roughness"@,
        BuiltinParamKind::NormalScale => "NormalScale"@,
        BuiltinParamKind::OcclusionStrength => "OcclusionStrength"@,
        BuiltinParamKind::SsrMask => "SsrMask"@,
        BuiltinParamKind::EmissiveStrength => "EmissiveStrength"@,
        BuiltinParamKind::AlphaCutoff => "AlphaCutoff"@,
        BuiltinParamKind::ToonDiffuseBands => "ToonDiffuseBands"@,
        BuiltinParamKind::ToonSpecularSteps => "ToonSpecularSteps"@,
        BuiltinParamKind::ToonShininess => "ToonShininess"@,
        BuiltinParamKind::ToonRimStrength => "ToonRimStrength"@,
        BuiltinParamKind::ToonRimPower => "ToonRimPower"@,
        BuiltinParamKind::FlipbookFps => "FlipbookFps"@,
        BuiltinParamKind::FlipbookTimeOffset => "FlipbookTimeOffset"@,
    }
}

/// The name of a factor of a built-in material.
pub fn builtin_param_text(p: BuiltinParamKind) -> (r: &'static str)
    ensures
        r@ == builtin_name(p),
{
    match p {
        BuiltinParamKind::BaseColor => "BaseColor",
        BuiltinParamKind::Emissive => "Emissive",
        BuiltinParamKind::Metallic => "Metallic",
        BuiltinParamKind::Roughness => "Roughness",
        BuiltinParamKind::NormalScale => "NormalScale",
        BuiltinParamKind::OcclusionStrength => "OcclusionStrength",
        BuiltinParamKind::SsrMask => "SsrMask",
        BuiltinParamKind::EmissiveStrength => "EmissiveStrength",
        BuiltinParamKind::AlphaCutoff => "AlphaCutoff",
        BuiltinParamKind::ToonDiffuseBands => "ToonDiffuseBands",
        BuiltinParamKind::ToonSpecularSteps => "ToonSpecularSteps",
        BuiltinParamKind::ToonShininess => "ToonShininess",
        BuiltinParamKind::ToonRimStrength => "ToonRimStrength",
        BuiltinParamKind::ToonRimPower => "ToonRimPower",
        BuiltinParamKind::FlipbookFps => "FlipbookFps",
        BuiltinParamKind::FlipbookTimeOffset => "FlipbookTimeOffset",
    }
}

/// The name of a setting of a light.
pub open spec fn light_name(p: LightParamKind) -> Seq<char> {
    match p {
        LightParamKind::Color => "Color"@,
        LightParamKind::Intensity => "Intensity"@,
        LightParamKind::Range => "Range"@,
        LightParamKind::InnerAngle => "InnerAngle"@,
        LightParamKind::OuterAngle => "OuterAngle"@,
    }
}

/// The name of a setting of a light.
pub fn light_param_text(p: LightParamKind) -> (r: &'static str)
    ensures
        r@ == light_name(p),
{
    match p {
        LightParamKind::Color => "Color",
        LightParamKind::Intensity => "Intensity",
        LightParamKind::Range => "Range",
        LightParamKind::InnerAngle => "InnerAngle",
        LightParamKind::OuterAngle => "OuterAngle",
    }
}

/// The name of a setting of a camera.
pub open spec fn camera_name(p: CameraParamKind) -> Seq<char> {
    match p {
        CameraParamKind::FovY => "FovY"@,
        CameraParamKind::Near => "Near"@,
        CameraParamKind::Far => "Far"@,
        CameraParamKind::Aperture => "Aperture"@,
        CameraParamKind::FocusDistance => "FocusDistance"@,
    }
}

/// The name of a setting of a camera.
pub fn camera_param_text(p: CameraParamKind) -> (r: &'static str)
    ensures
        r@ == camera_name(p),
{
    match p {
        CameraParamKind::FovY => "FovY",
        CameraParamKind::Near => "Near",
        CameraParamKind::Far => "Far",
        CameraParamKind::Aperture => "Aperture",
        CameraParamKind::FocusDistance => "FocusDistance",
    }
}

/// The key under which a value is reported.
pub open spec fn key_text(t: ReadbackTarget) -> Seq<char> {
    match t {
        ReadbackTarget::NodeLocalTrs { node } => "local_trs/"@ + hyphenated(node.0),
        ReadbackTarget::NodeWorldMatrix { node } => "world/"@ + hyphenated(node.0),
        ReadbackTarget::MorphWeight { node, index } => "morph/"@ + hyphenated(node.0) + "/"@
            + decimal(index as nat),
        ReadbackTarget::Uniform { material, name } => "uniform/"@ + hyphenated(material.0) + "/"@
            + name@,
        ReadbackTarget::BuiltinParam { node, param } => "builtin/"@ + hyphenated(node.0) + "/"@
            + builtin_name(param),
        ReadbackTarget::LightParam { node, param } => "light/"@ + hyphenated(node.0) + "/"@
            + light_name(param),
        ReadbackTarget::CameraParam { node, param } => "camera/"@ + hyphenated(node.0) + "/"@
            + camera_name(param),
    }
}

fn path(head: &str, id: u128, tail: &str) -> (r: String)
    ensures
        r@ == head@ + hyphenated(id) + "/"@ + tail@,
{
    let front = joined3(head, &id_text(id), "/");
    joined(&front, tail)
}

/// The key under which a value is reported.
pub fn readback_key(t: &ReadbackTarget) -> (r: String)
    ensures
        r@ == key_text(*t),
{
    match t {
        ReadbackTarget::NodeLocalTrs { node } => joined("local_trs/", &id_text(node.0)),
        ReadbackTarget::NodeWorldMatrix { node } => joined("world/", &id_text(node.0)),
        ReadbackTarget::MorphWeight { node, index } => path(
            "morph/",
            node.0,
            &decimal_text(*index as u64),
        ),
        ReadbackTarget::Uniform { material, name } => path("uniform/", material.0, name),
        ReadbackTarget::BuiltinParam { node, param } => path(
            "builtin/",
            node.0,
            builtin_param_text(*param),
        ),
        ReadbackTarget::LightParam { node, param } => path(
            "light/",
            node.0,
            light_param_text(*param),
        ),
        ReadbackTarget::CameraParam { node, param } => path(
            "camera/",
            node.0,
            camera_param_text(*param),
        ),
    }
}

/// The factors of a material as they are rendered.
#[allow(inconsistent_fields)]
#[derive(Clone, Copy, PartialEq, Eq, Structural, Debug)]
pub enum MaterialState {
    Pbr {
        base_color: Vec4,
        emissive: Vec3,
        metallic: F32,
        roughness: F32,
        normal_scale: F32,
        occlusion_strength: F32,
        ssr_mask: F32,
        emissive_strength: Option<F32>,
        alpha_cutoff: Option<F32>,
    },
    Unlit { base_color: Vec4, emissive: Vec3 },
    Toon {
        base_color: Vec4,
        emissive: Vec3,
        diffuse_bands: F32,
        specular_steps: F32,
        shininess: F32,
        rim_strength: F32,
        rim_power: F32,
    },
    FlipBook { fps: F32, time_offset: F32 },
    Custom,
}

/// The present value of a uniform. The whole numbers of one that holds any are
/// given as real numbers too.
pub struct SlotState {
    pub value: UniformValue,
    pub whole: List<F32>,
}

impl Same for SlotState {
    fn same(&self) -> (res: Self) {
        SlotState { value: self.value.same(), whole: self.whole.clone() }
    }
}

/// A custom material as it is rendered: the values of its uniforms.
pub struct CustomState {
    pub shader: MaterialShaderId,
    pub values: List<SlotState>,
}

/// What the renderer has, with its present values.
pub struct LiveState {
    pub render: RenderState,
    /// The local placement of each transform.
    pub locals: Table<Trs>,
    /// The world matrix of each transform, column by column.
    pub worlds: Table<List<F32>>,
    pub materials: Table<MaterialState>,
    pub customs: Vec<CustomState>,
    pub lights: Table<LightConfig>,
    pub cameras: Table<CameraConfig>,
    /// The weights of each set of morph targets.
    pub weights: Table<List<F32>>,
    /// The nodes of each imported file.
    pub templates: Table<AssetTemplate>,
}

/// A value that was read.
pub enum Reading {
    Number(F32),
    Color(Vec3),
    Pose(Trs),
    Matrix(List<F32>),
    Uniform(SlotState),
}

/// A color without its alpha.
pub open spec fn opaque_part(c: Vec4) -> Vec3 {
    Vec3 { x: c.x, y: c.y, z: c.z }
}

fn rgb(c: Vec4) -> (r: Vec3)
    ensures
        r == opaque_part(c),
{
    Vec3 { x: c.x, y: c.y, z: c.z }
}

/// The bit pattern of one half, the cut-off of a material that states none.
pub const HALF_BITS: u32 = 0x3F00_0000;

/// A factor of a material, where its shading has it.
pub open spec fn factor(m: MaterialState, p: BuiltinParamKind) -> Option<Reading> {
    match (m, p) {
        (MaterialState::Pbr { base_color, .. }, BuiltinParamKind::BaseColor) => Some(
            Reading::Color(opaque_part(base_color)),
        ),
        (MaterialState::Unlit { base_color, .. }, BuiltinParamKind::BaseColor) => Some(
            Reading::Color(opaque_part(base_color)),
        ),
        (MaterialState::Toon { base_color, .. }, BuiltinParamKind::BaseColor) => Some(
            Reading::Color(opaque_part(base_color)),
        ),
        (MaterialState::Pbr { emissive, .. }, BuiltinParamKind::Emissive) => Some(
            Reading::Color(emissive),
        ),
        (MaterialState::Unlit { emissive, .. }, BuiltinParamKind::Emissive) => Some(
            Reading::Color(emissive),
        ),
        (MaterialState::Toon { emissive, .. }, BuiltinParamKind::Emissive) => Some(
            Reading::Color(emissive),
        ),
        (MaterialState::Pbr { metallic, .. }, BuiltinParamKind::Metallic) => Some(
            Reading::Number(metallic),
        ),
        (MaterialState::Pbr { ssr_mask, .. }, BuiltinParamKind::SsrMask) => Some(
            Reading::Number(ssr_mask),
        ),
        (MaterialState::Pbr { roughness, .. }, BuiltinParamKind::Roughness) => Some(
            Reading::Number(roughness),
        ),
        (MaterialState::Pbr { normal_scale, .. }, BuiltinParamKind::NormalScale) => Some(
            Reading::Number(normal_scale),
        ),
        (MaterialState::Pbr { occlusion_strength, .. }, BuiltinParamKind::OcclusionStrength) => Some(
            Reading::Number(occlusion_strength),
        ),
        (MaterialState::Pbr { emissive_strength, .. }, BuiltinParamKind::EmissiveStrength) => Some(
            Reading::Number(
                match emissive_strength {
                    Some(s) => s,
                    None => F32::one(),
                },
            ),
        ),
        (MaterialState::Pbr { alpha_cutoff, .. }, BuiltinParamKind::AlphaCutoff) => Some(
            Reading::Number(
                match alpha_cutoff {
                    Some(c) => c,
                    None => F32 { bits: HALF_BITS },
                },
            ),
        ),
        (MaterialState::Toon { diffuse_bands, .. }, BuiltinParamKind::ToonDiffuseBands) => Some(
            Reading::Number(diffuse_bands),
        ),
        (MaterialState::Toon { specular_steps, .. }, BuiltinParamKind::ToonSpecularSteps) => Some(
            Reading::Number(specular_steps),
        ),
        (MaterialState::Toon { shininess, .. }, BuiltinParamKind::ToonShininess) => Some(
            Reading::Number(shininess),
        ),
        (MaterialState::Toon { rim_strength, .. }, BuiltinParamKind::ToonRimStrength) => Some(
            Reading::Number(rim_strength),
        ),
        (MaterialState::Toon { rim_power, .. }, BuiltinParamKind::ToonRimPower) => Some(
            Reading::Number(rim_power),
        ),
        (MaterialState::FlipBook { fps, .. }, BuiltinParamKind::FlipbookFps) => Some(
            Reading::Number(fps),
        ),
        (MaterialState::FlipBook { time_offset, .. }, BuiltinParamKind::FlipbookTimeOffset) => Some(
            Reading::Number(time_offset),
        ),
        _ => None,
    }
}

fn read_factor(m: MaterialState, p: BuiltinParamKind) -> (r: Option<Reading>)
    ensures
        r == factor(m, p),
{
    match p {
        BuiltinParamKind::BaseColor => match m {
            MaterialState::Pbr { base_color, .. } => Some(Reading::Color(rgb(base_color))),
            MaterialState::Unlit { base_color, .. } => Some(Reading::Color(rgb(base_color))),
            MaterialState::Toon { base_color, .. } => Some(Reading::Color(rgb(base_color))),
            _ => None,
        },
        BuiltinParamKind::Emissive => match m {
            MaterialState::Pbr { emissive, .. } => Some(Reading::Color(emissive)),
            MaterialState::Unlit { emissive, .. } => Some(Reading::Color(emissive)),
            MaterialState::Toon { emissive, .. } => Some(Reading::Color(emissive)),
            _ => None,
        },
        BuiltinParamKind::Metallic => match m {
            MaterialState::Pbr { metallic, .. } => Some(Reading::Number(metallic)),
            _ => None,
        },
        BuiltinParamKind::SsrMask => match m {
            MaterialState::Pbr { ssr_mask, .. } => Some(Reading::Number(ssr_mask)),
            _ => None,
        },
        BuiltinParamKind::Roughness => match m {
            MaterialState::Pbr { roughness, .. } => Some(Reading::Number(roughness)),
            _ => None,
        },
        BuiltinParamKind::NormalScale => match m {
            MaterialState::Pbr { normal_scale, .. } => Some(Reading::Number(normal_scale)),
            _ => None,
        },
        BuiltinParamKind::OcclusionStrength => match m {
            MaterialState::Pbr { occlusion_strength, .. } => Some(
                Reading::Number(occlusion_strength),
            ),
            _ => None,
        },
        BuiltinParamKind::EmissiveStrength => match m {
            MaterialState::Pbr { emissive_strength, .. } => Some(
                Reading::Number(
                    match emissive_strength {
                        Some(s) => s,
                        None => F32::one(),
                    },
                ),
            ),
            _ => None,
        },
        BuiltinParamKind::AlphaCutoff => match m {
            MaterialState::Pbr { alpha_cutoff, .. } => Some(
                Reading::Number(
                    match alpha_cutoff {
                        Some(c) => c,
                        None => F32 { bits: HALF_BITS },
                    },
                ),
            ),
            _ => None,
        },
        BuiltinParamKind::ToonDiffuseBands => match m {
            MaterialState::Toon { diffuse_bands, .. } => Some(Reading::Number(diffuse_bands)),
            _ => None,
        },
        BuiltinParamKind::ToonSpecularSteps => match m {
            MaterialState::Toon { specular_steps, .. } => Some(Reading::Number(specular_steps)),
            _ => None,
        },
        BuiltinParamKind::ToonShininess => match m {
            MaterialState::Toon { shininess, .. } => Some(Reading::Number(shininess)),
            _ => None,
        },
        BuiltinParamKind::ToonRimStrength => match m {
            MaterialState::Toon { rim_strength, .. } => Some(Reading::Number(rim_strength)),
            _ => None,
        },
        BuiltinParamKind::ToonRimPower => match m {
            MaterialState::Toon { rim_power, .. } => Some(Reading::Number(rim_power)),
            _ => None,
        },
        BuiltinParamKind::FlipbookFps => match m {
            MaterialState::FlipBook { fps, .. } => Some(Reading::Number(fps)),
            _ => None,
        },
        BuiltinParamKind::FlipbookTimeOffset => match m {
            MaterialState::FlipBook { time_offset, .. } => Some(Reading::Number(time_offset)),
            _ => None,
        },
    }
}

/// A setting of a light, where its kind has it.
pub open spec fn light_setting(l: LightConfig, p: LightParamKind) -> Option<Reading> {
    let (color, intensity) = match l {
        LightConfig::Directional { color, intensity } => (color, intensity),
        LightConfig::Point { color, intensity, .. } => (color, intensity),
        LightConfig::Spot { color, intensity, .. } => (color, intensity),
    };
    match p {
        LightParamKind::Color => Some(Reading::Color(color)),
        LightParamKind::Intensity => Some(Reading::Number(intensity)),
        LightParamKind::Range => match l {
            LightConfig::Point { range, .. } => Some(Reading::Number(range)),
            LightConfig::Spot { range, .. } => Some(Reading::Number(range)),
            LightConfig::Directional { .. } => None,
        },
        LightParamKind::InnerAngle => match l {
            LightConfig::Spot { inner_angle, .. } => Some(Reading::Number(inner_angle)),
            _ => None,
        },
        LightParamKind::OuterAngle => match l {
            LightConfig::Spot { outer_angle, .. } => Some(Reading::Number(outer_angle)),
            _ => None,
        },
    }
}

fn read_light(l: LightConfig, p: LightParamKind) -> (r: Option<Reading>)
    ensures
        r == light_setting(l, p),
{
    let (color, intensity) = match l {
        LightConfig::Directional { color, intensity } => (color, intensity),
        LightConfig::Point { color, intensity, .. } => (color, intensity),
        LightConfig::Spot { color, intensity, .. } => (color, intensity),
    };
    match p {
        LightParamKind::Color => Some(Reading::Color(color)),
        LightParamKind::Intensity => Some(Reading::Number(intensity)),
        LightParamKind::Range => match l {
            LightConfig::Point { range, .. } => Some(Reading::Number(range)),
            LightConfig::Spot { range, .. } => Some(Reading::Number(range)),
            LightConfig::Directional { .. } => None,
        },
        LightParamKind::InnerAngle => match l {
            LightConfig::Spot { inner_angle, .. } => Some(Reading::Number(inner_angle)),
            _ => None,
        },
        LightParamKind::OuterAngle => match l {
            LightConfig::Spot { outer_angle, .. } => Some(Reading::Number(outer_angle)),
            _ => None,
        },
    }
}

/// A setting of a camera; one without perspective has no field of view.
pub open spec fn camera_setting(c: CameraConfig, p: CameraParamKind) -> Option<Reading> {
    match p {
        CameraParamKind::FovY => match c.projection {
            CameraProjection::Perspective { fov_y } => Some(Reading::Number(fov_y)),
            CameraProjection::Orthographic { .. } => None,
        },
        CameraParamKind::Near => Some(Reading::Number(c.near)),
        CameraParamKind::Far => Some(Reading::Number(c.far)),
        CameraParamKind::Aperture => Some(Reading::Number(c.aperture)),
        CameraParamKind::FocusDistance => Some(Reading::Number(c.focus_distance)),
    }
}

fn read_camera(c: CameraConfig, p: CameraParamKind) -> (r: Option<Reading>)
    ensures
        r == camera_setting(c, p),
{
    match p {
        CameraParamKind::FovY => match c.projection {
            CameraProjection::Perspective { fov_y } => Some(Reading::Number(fov_y)),
            CameraProjection::Orthographic { .. } => None,
        },
        CameraParamKind::Near => Some(Reading::Number(c.near)),
        CameraParamKind::Far => Some(Reading::Number(c.far)),
        CameraParamKind::Aperture => Some(Reading::Number(c.aperture)),
        CameraParamKind::FocusDistance => Some(Reading::Number(c.focus_distance)),
    }
}

/// The reference to a rig, where a node stands in the scene and has one.
pub open spec fn skin_of(f: Seq<Tree>, node: NodeId) -> Option<SkinnedMeshRef> {
    match find(f, node) {
        Some(n) => match n.data.kind {
            NodeKind::SkinnedMesh { skin, .. } => Some(skin),
            _ => None,
        },
        None => None,
    }
}

/// The node of the imported file that a skinned node came from.
pub open spec fn template_of(templates: Map<u128, AssetTemplate>, skin: SkinnedMeshRef) -> Option<
    AssetTemplateNode,
> {
    if templates.contains_key(skin.source.0) {
        found(templates[skin.source.0].roots@, skin.node_index)
    } else {
        None
    }
}

/// The meshes of a node of a file, or one of them.
pub open spec fn chosen_meshes(t: AssetTemplateNode, primitive: Option<u32>) -> Seq<u64> {
    let keys = crate::asset_template::keys_in(t.primitives@);
    match primitive {
        None => keys,
        Some(i) => if i < keys.len() {
            seq![keys[i as int]]
        } else {
            seq![]
        },
    }
}

/// The meshes that the renderer has for a node: its own, or, where it has none,
/// those of the imported file that it came from.
pub open spec fn meshes_of(
    nodes: Map<u128, RenderNode>,
    templates: Map<u128, AssetTemplate>,
    f: Seq<Tree>,
    node: NodeId,
) -> Seq<u64> {
    if !nodes.contains_key(node.0) {
        seq![]
    } else if nodes[node.0].model_meshes@.len() > 0 {
        nodes[node.0].model_meshes@
    } else {
        match skin_of(f, node) {
            Some(skin) => match template_of(templates, skin) {
                Some(t) => chosen_meshes(t, skin.primitive_index),
                None => seq![],
            },
            None => seq![],
        }
    }
}

fn find_skin<'a>(nodes: &'a Vec<Node>, node: NodeId) -> (r: Option<&'a SkinnedMeshRef>)
    ensures
        match r {
            Some(s) => skin_of(forest(nodes@), node) == Some(*s),
            None => skin_of(forest(nodes@), node) is None,
        },
{
    match find_by_id(nodes, node) {
        Some(n) => {
            proof {
                lemma_model(*n);
            }
            match &n.data.kind {
                NodeKind::SkinnedMesh { skin, .. } => Some(skin),
                _ => None,
            }
        },
        None => None,
    }
}

fn find_template<'a>(templates: &'a Table<AssetTemplate>, skin: &SkinnedMeshRef) -> (r: Option<
    &'a AssetTemplateNode,
>)
    ensures
        match r {
            Some(t) => template_of(templates@, *skin) == Some(*t),
            None => template_of(templates@, *skin) is None,
        },
{
    match templates.get(skin.source.0) {
        Some(t) => t.find_by_node_index(skin.node_index),
        None => None,
    }
}

fn choose_meshes(t: &AssetTemplateNode, primitive: Option<u32>) -> (r: Vec<u64>)
    ensures
        r@ == chosen_meshes(*t, primitive),
{
    let mut out: Vec<u64> = Vec::new();
    match primitive {
        None => {
            let mut i: usize = 0;
            while i < t.primitives.len()
                invariant
                    i <= t.primitives@.len(),
                    out@ == crate::asset_template::keys_in(t.primitives@).take(i as int),
                decreases t.primitives@.len() - i,
            {
                out.push(t.primitives.at(i).mesh_key);
                i += 1;
                assert(out@ =~= crate::asset_template::keys_in(t.primitives@).take(i as int));
            }
            assert(out@ =~= crate::asset_template::keys_in(t.primitives@));
        },
        Some(k) => {
            let k: usize = k as usize;
            if k < t.primitives.len() {
                out.push(t.primitives.at(k).mesh_key);
            }
            assert(out@ =~= chosen_meshes(*t, primitive));
        },
    }
    out
}

/// The meshes that the renderer has for a node.
pub fn renderer_meshes_for_node(
    made: &Table<RenderNode>,
    templates: &Table<AssetTemplate>,
    nodes: &Vec<Node>,
    node: NodeId,
) -> (r: Vec<u64>)
    ensures
        r@ == meshes_of(made@, templates@, forest(nodes@), node),
{
    let entry = match made.get(node.0) {
        Some(n) => n,
        None => {
            return Vec::new();
        },
    };
    if !entry.model_meshes.is_empty() {
        return entry.model_meshes.to_vec();
    }
    match find_skin(nodes, node) {
        Some(skin) => match find_template(templates, skin) {
            Some(t) => choose_meshes(t, skin.primitive_index),
            None => Vec::new(),
        },
        None => Vec::new(),
    }
}

/// The names of the morph targets of a node: those of the imported file that it
/// came from.
pub open spec fn morph_names(
    nodes: Map<u128, RenderNode>,
    templates: Map<u128, AssetTemplate>,
    f: Seq<Tree>,
    node: NodeId,
) -> Seq<String> {
    if !nodes.contains_key(node.0) {
        seq![]
    } else {
        match skin_of(f, node) {
            Some(skin) => match template_of(templates, skin) {
                Some(t) => t.morph_target_names@,
                None => seq![],
            },
            None => seq![],
        }
    }
}

/// The names of the morph targets of a node.
pub fn morph_names_for_node(
    made: &Table<RenderNode>,
    templates: &Table<AssetTemplate>,
    nodes: &Vec<Node>,
    node: NodeId,
) -> (r: List<String>)
    ensures
        r@ == morph_names(made@, templates@, forest(nodes@), node),
{
    if !made.contains(node.0) {
        return List::empty();
    }
    match find_skin(nodes, node) {
        Some(skin) => match find_template(templates, skin) {
            Some(t) => t.morph_target_names.clone(),
            None => List::empty(),
        },
        None => List::empty(),
    }
}

/// Whether a mesh has morph targets.
pub open spec fn morphs(keys: Map<u128, u64>) -> spec_fn(u64) -> bool {
    |mesh: u64| keys.contains_key(mesh as u128)
}

/// The morph targets of the first mesh that has any.
pub open spec fn first_morph(meshes: Seq<u64>, keys: Map<u128, u64>) -> Option<u64> {
    let i = first(meshes, morphs(keys));
    if 0 <= i < meshes.len() {
        Some(keys[meshes[i] as u128])
    } else {
        None
    }
}

fn find_morph(meshes: &Vec<u64>, keys: &Table<u64>) -> (r: Option<u64>)
    ensures
        r == first_morph(meshes@, keys@),
{
    let mut i: usize = 0;
    while i < meshes.len()
        invariant
            i <= meshes@.len(),
            forall|j: int| 0 <= j < i ==> !morphs(keys@)(#[trigger] meshes@[j]),
        decreases meshes@.len() - i,
    {
        if let Some(k) = keys.get(meshes[i] as u128) {
            proof {
                lemma_first_is(meshes@, morphs(keys@), i as int);
            }
            return Some(*k);
        }
        i += 1;
    }
    proof {
        lemma_first_is(meshes@, morphs(keys@), i as int);
    }
    None
}

/// Whether a custom material renders with a shader and has a value in a slot.
pub open spec fn holds_slot(shader: MaterialShaderId, slot: int) -> spec_fn(CustomState) -> bool {
    |c: CustomState| c.shader == shader && slot < c.values@.len()
}

/// The present value of a uniform: of the first custom material that renders
/// with the shader and has the slot.
pub open spec fn uniform_reading(
    material: AssetId,
    name: Seq<char>,
    live: LiveState,
    reg: RegistryView,
) -> Option<Reading> {
    if !reg.shaders.contains_key(material.0) {
        None
    } else {
        let shader = reg.shaders[material.0];
        if !live.render.uniforms@.contains_key(shader.0 as u128) {
            None
        } else {
            let names = live.render.uniforms@[shader.0 as u128]@;
            let slot = name_at(names, name);
            let i = first(live.customs@, holds_slot(shader, slot));
            if slot < names.len() && 0 <= i < live.customs@.len() {
                Some(Reading::Uniform(live.customs@[i].values@[slot]))
            } else {
                None
            }
        }
    }
}

fn find_custom(row: &Vec<CustomState>, shader: MaterialShaderId, slot: usize) -> (r: Option<usize>)
    ensures
        match r {
            Some(i) => i < row@.len() && first(row@, holds_slot(shader, slot as int)) == i
                && holds_slot(shader, slot as int)(row@[i as int]),
            None => first(row@, holds_slot(shader, slot as int)) == row@.len(),
        },
{
    let mut i: usize = 0;
    while i < row.len()
        invariant
            i <= row@.len(),
            forall|j: int| 0 <= j < i ==> !holds_slot(shader, slot as int)(#[trigger] row@[j]),
        decreases row@.len() - i,
    {
        if row[i].shader == shader && slot < row[i].values.len() {
            proof {
                lemma_first_is(row@, holds_slot(shader, slot as int), i as int);
            }
            return Some(i);
        }
        i += 1;
    }
    proof {
        lemma_first_is(row@, holds_slot(shader, slot as int), i as int);
    }
    None
}

fn read_uniform(material: AssetId, name: &str, live: &LiveState, reg: &Registry) -> (r: Option<Reading>)
    ensures
        r == uniform_reading(material, name@, *live, reg@),
{
    let shader = match reg.shader_id_for_asset(material) {
        Some(s) => s,
        None => {
            return None;
        },
    };
    let names = match live.render.uniforms.get(shader.0 as u128) {
        Some(n) => n,
        None => {
            return None;
        },
    };
    let slot: usize = match find_name(names, name) {
        Some(i) => i,
        None => {
            return None;
        },
    };
    match find_custom(&live.customs, shader, slot) {
        Some(i) => Some(Reading::Uniform(live.customs[i].values.at(slot).same())),
        None => None,
    }
}

/// What is read for a target; nothing where the renderer does not have it yet,
/// or where it has no such value.
pub open spec fn reading(t: ReadbackTarget, live: LiveState, reg: RegistryView, f: Seq<Tree>) -> Option<
    Reading,
> {
    let nodes = live.render.nodes@;
    match t {
        ReadbackTarget::NodeLocalTrs { node } => if nodes.contains_key(node.0)
            && live.locals@.contains_key(nodes[node.0].transform_key as u128) {
            Some(Reading::Pose(live.locals@[nodes[node.0].transform_key as u128]))
        } else {
            None
        },
        ReadbackTarget::NodeWorldMatrix { node } => if nodes.contains_key(node.0)
            && live.worlds@.contains_key(nodes[node.0].transform_key as u128) {
            Some(Reading::Matrix(live.worlds@[nodes[node.0].transform_key as u128]))
        } else {
            None
        },
        ReadbackTarget::Uniform { material, name } => uniform_reading(material, name@, live, reg),
        ReadbackTarget::BuiltinParam { node, param } => if nodes.contains_key(node.0)
            && nodes[node.0].material_keys@.len() > 0 && live.materials@.contains_key(
            nodes[node.0].material_keys@[0] as u128,
        ) {
            factor(live.materials@[nodes[node.0].material_keys@[0] as u128], param)
        } else {
            None
        },
        ReadbackTarget::LightParam { node, param } => if nodes.contains_key(node.0)
            && nodes[node.0].light_key is Some && live.lights@.contains_key(
            nodes[node.0].light_key->0 as u128,
        ) {
            light_setting(live.lights@[nodes[node.0].light_key->0 as u128], param)
        } else {
            None
        },
        ReadbackTarget::MorphWeight { node, index } => match first_morph(
            meshes_of(nodes, live.templates@, f, node),
            live.render.geometry_morphs@,
        ) {
            Some(key) => if live.weights@.contains_key(key as u128) && index
                < live.weights@[key as u128]@.len() {
                Some(Reading::Number(live.weights@[key as u128]@[index as int]))
            } else {
                None
            },
            None => None,
        },
        ReadbackTarget::CameraParam { node, param } => if nodes.contains_key(node.0)
            && nodes[node.0].camera_key is Some && live.cameras@.contains_key(
            nodes[node.0].camera_key->0 as u128,
        ) {
            camera_setting(live.cameras@[nodes[node.0].camera_key->0 as u128], param)
        } else {
            None
        },
    }
}

/// Reads one value from what the renderer has.
pub fn read_readback_target(
    t: &ReadbackTarget,
    live: &LiveState,
    reg: &Registry,
    nodes: &Vec<Node>,
) -> (r: Option<Reading>)
    ensures
        r == reading(*t, *live, reg@, forest(nodes@)),
{
    match t {
        ReadbackTarget::NodeLocalTrs { node } => match live.render.nodes.get(node.0) {
            Some(n) => match live.locals.get(n.transform_key as u128) {
                Some(p) => Some(Reading::Pose(*p)),
                None => None,
            },
            None => None,
        },
        ReadbackTarget::NodeWorldMatrix { node } => match live.render.nodes.get(node.0) {
            Some(n) => match live.worlds.get(n.transform_key as u128) {
                Some(m) => Some(Reading::Matrix(m.clone())),
                None => None,
            },
            None => None,
        },
        ReadbackTarget::Uniform { material, name } => read_uniform(*material, name, live, reg),
        ReadbackTarget::BuiltinParam { node, param } => match live.render.nodes.get(node.0) {
            Some(n) => if n.material_keys.len() > 0 {
                match live.materials.get(*n.material_keys.at(0) as u128) {
                    Some(m) => read_factor(*m, *param),
                    None => None,
                }
            } else {
                None
            },
            None => None,
        },
        ReadbackTarget::LightParam { node, param } => match live.render.nodes.get(node.0) {
            Some(n) => match n.light_key {
                Some(k) => match live.lights.get(k as u128) {
                    Some(l) => read_light(*l, *param),
                    None => None,
                },
                None => None,
            },
            None => None,
        },
        ReadbackTarget::MorphWeight { node, index } => {
            let meshes = renderer_meshes_for_node(
                &live.render.nodes,
                &live.templates,
                nodes,
                *node,
            );
            match find_morph(&meshes, &live.render.geometry_morphs) {
                Some(key) => match live.weights.get(key as u128) {
                    Some(w) => if *index < w.len() {
                        Some(Reading::Number(*w.at(*index)))
                    } else {
                        None
                    },
                    None => None,
                },
                None => None,
            }
        },
        ReadbackTarget::CameraParam { node, param } => match live.render.nodes.get(node.0) {
            Some(n) => match n.camera_key {
                Some(k) => match live.cameras.get(k as u128) {
                    Some(c) => read_camera(*c, *param),
                    None => None,
                },
                None => None,
            },
            None => None,
        },
    }
}

/// The value of a placement, as a node stands in the scene.
pub open spec fn pose_value(t: Trs, prop: TransformProp) -> TrackValue {
    match prop {
        TransformProp::Translation => TrackValue::Vec3(t.translation),
        TransformProp::Rotation => TrackValue::Quat(t.rotation),
        TransformProp::Scale => TrackValue::Vec3(t.scale),
    }
}

/// Where the present value of what a track drives is found.
#[allow(inconsistent_fields)]
pub enum LiveSource {
    /// In the scene.
    Value(TrackValue),
    /// In the renderer.
    Readback(ReadbackTarget),
    /// Nowhere.
    Absent,
}

/// Where the present value of what a track drives is found: a placement in the
/// scene, which the renderer's own may lag behind; the rest in the renderer.
pub open spec fn live_source(t: TrackTarget, f: Seq<Tree>) -> LiveSource {
    match t {
        TrackTarget::Transform { node, prop } => match find(f, node) {
            Some(n) => LiveSource::Value(pose_value(n.data.transform, prop)),
            None => LiveSource::Absent,
        },
        TrackTarget::Morph { node, index } => LiveSource::Readback(
            ReadbackTarget::MorphWeight { node, index },
        ),
        TrackTarget::Uniform { material, name } => LiveSource::Readback(
            ReadbackTarget::Uniform { material, name },
        ),
        TrackTarget::BuiltinParam { node, param } => LiveSource::Readback(
            ReadbackTarget::BuiltinParam { node, param },
        ),
        TrackTarget::Light { node, param } => LiveSource::Readback(
            ReadbackTarget::LightParam { node, param },
        ),
        TrackTarget::Camera { node, param } => LiveSource::Readback(
            ReadbackTarget::CameraParam { node, param },
        ),
        TrackTarget::TextureTransform { .. } => LiveSource::Absent,
    }
}

fn find_live(t: &TrackTarget, nodes: &Vec<Node>) -> (r: LiveSource)
    ensures
        r == live_source(*t, forest(nodes@)),
{
    match t {
        TrackTarget::Transform { node, prop } => match find_by_id(nodes, *node) {
            Some(n) => {
                proof {
                    lemma_model(*n);
                }
                let p = n.data.transform;
                LiveSource::Value(
                    match prop {
                        TransformProp::Translation => TrackValue::Vec3(p.translation),
                        TransformProp::Rotation => TrackValue::Quat(p.rotation),
                        TransformProp::Scale => TrackValue::Vec3(p.scale),
                    },
                )
            },
            None => LiveSource::Absent,
        },
        TrackTarget::Morph { node, index } => LiveSource::Readback(
            ReadbackTarget::MorphWeight { node: *node, index: *index },
        ),
        TrackTarget::Uniform { material, name } => LiveSource::Readback(
            ReadbackTarget::Uniform { material: *material, name: name.clone() },
        ),
        TrackTarget::BuiltinParam { node, param } => LiveSource::Readback(
            ReadbackTarget::BuiltinParam { node: *node, param: *param },
        ),
        TrackTarget::Light { node, param } => LiveSource::Readback(
            ReadbackTarget::LightParam { node: *node, param: *param },
        ),
        TrackTarget::Camera { node, param } => LiveSource::Readback(
            ReadbackTarget::CameraParam { node: *node, param: *param },
        ),
        TrackTarget::TextureTransform { .. } => LiveSource::Absent,
    }
}

/// The numbers of the value of a uniform: one, or a row. A truth value is none.
pub open spec fn slot_numbers(s: SlotState) -> Option<(bool, Seq<F32>)> {
    match s.value {
        UniformValue::F32(v) => Some((true, seq![v])),
        UniformValue::U32(_) => Some((true, s.whole@)),
        UniformValue::Vec2(v) => Some((false, seq![v.x, v.y])),
        UniformValue::Vec3(v) => Some((false, seq![v.x, v.y, v.z])),
        UniformValue::Color3(v) => Some((false, seq![v.x, v.y, v.z])),
        UniformValue::Vec4(v) => Some((false, seq![v.x, v.y, v.z, v.w])),
        UniformValue::Color4(v) => Some((false, seq![v.x, v.y, v.z, v.w])),
        UniformValue::IVec2(..) => Some((false, s.whole@)),
        UniformValue::IVec3(..) => Some((false, s.whole@)),
        UniformValue::IVec4(..) => Some((false, s.whole@)),
        UniformValue::Mat3(m) => Some((false, m@)),
        UniformValue::Mat4(m) => Some((false, m@)),
        UniformValue::Bool(_) => None,
    }
}

/// The numbers of a reading: one, or a row. A pose is neither.
pub open spec fn numbers(r: Reading) -> Option<(bool, Seq<F32>)> {
    match r {
        Reading::Number(v) => Some((true, seq![v])),
        Reading::Color(c) => Some((false, seq![c.x, c.y, c.z])),
        Reading::Matrix(m) => Some((false, m@)),
        Reading::Uniform(s) => slot_numbers(s),
        Reading::Pose(_) => None,
    }
}

/// The first four of a row.
pub open spec fn four(row: Seq<F32>) -> Vec4 {
    Vec4 { x: row[0], y: row[1], z: row[2], w: row[3] }
}

/// Numbers in the shape that a track expects, where they are enough.
pub open spec fn shaped(expected: TrackValue, one: bool, row: Seq<F32>) -> Option<TrackValue> {
    match expected {
        TrackValue::Scalar(_) => if one && row.len() >= 1 {
            Some(TrackValue::Scalar(row[0]))
        } else {
            None
        },
        TrackValue::Vec2(_) => if !one && row.len() >= 2 {
            Some(TrackValue::Vec2(Vec2 { x: row[0], y: row[1] }))
        } else {
            None
        },
        TrackValue::Vec3(_) => if !one && row.len() >= 3 {
            Some(TrackValue::Vec3(Vec3 { x: row[0], y: row[1], z: row[2] }))
        } else {
            None
        },
        TrackValue::Vec4(_) => if !one && row.len() >= 4 {
            Some(TrackValue::Vec4(four(row)))
        } else {
            None
        },
        TrackValue::Quat(_) => if !one && row.len() >= 4 {
            Some(TrackValue::Quat(four(row)))
        } else {
            None
        },
    }
}

fn row_of2(a: F32, b: F32) -> (r: Vec<F32>)
    ensures
        r@ == seq![a, b],
{
    let mut row: Vec<F32> = Vec::new();
    row.push(a);
    row.push(b);
    assert(row@ =~= seq![a, b]);
    row
}

fn row_of3(v: Vec3) -> (r: Vec<F32>)
    ensures
        r@ == seq![v.x, v.y, v.z],
{
    let mut row = row_of2(v.x, v.y);
    row.push(v.z);
    assert(row@ =~= seq![v.x, v.y, v.z]);
    row
}

fn row_of4(v: Vec4) -> (r: Vec<F32>)
    ensures
        r@ == seq![v.x, v.y, v.z, v.w],
{
    let mut row = row_of2(v.x, v.y);
    row.push(v.z);
    row.push(v.w);
    assert(row@ =~= seq![v.x, v.y, v.z, v.w]);
    row
}

fn row_of1(a: F32) -> (r: Vec<F32>)
    ensures
        r@ == seq![a],
{
    let mut row: Vec<F32> = Vec::new();
    row.push(a);
    assert(row@ =~= seq![a]);
    row
}

fn read_slot(s: &SlotState) -> (n: Option<(bool, Vec<F32>)>)
    ensures
        match n {
            Some(p) => slot_numbers(*s) == Some((p.0, p.1@)),
            None => slot_numbers(*s) is None,
        },
{
    match &s.value {
        UniformValue::F32(v) => Some((true, row_of1(*v))),
        UniformValue::U32(_) => Some((true, s.whole.to_vec())),
        UniformValue::Vec2(v) => Some((false, row_of2(v.x, v.y))),
        UniformValue::Vec3(v) => Some((false, row_of3(*v))),
        UniformValue::Color3(v) => Some((false, row_of3(*v))),
        UniformValue::Vec4(v) => Some((false, row_of4(*v))),
        UniformValue::Color4(v) => Some((false, row_of4(*v))),
        UniformValue::IVec2(..) => Some((false, s.whole.to_vec())),
        UniformValue::IVec3(..) => Some((false, s.whole.to_vec())),
        UniformValue::IVec4(..) => Some((false, s.whole.to_vec())),
        UniformValue::Mat3(m) => Some((false, m.to_vec())),
        UniformValue::Mat4(m) => Some((false, m.to_vec())),
        UniformValue::Bool(_) => None,
    }
}

fn read_numbers(r: &Reading) -> (n: Option<(bool, Vec<F32>)>)
    ensures
        match n {
            Some(p) => numbers(*r) == Some((p.0, p.1@)),
            None => numbers(*r) is None,
        },
{
    match r {
        Reading::Number(v) => Some((true, row_of1(*v))),
        Reading::Color(c) => Some((false, row_of3(*c))),
        Reading::Matrix(m) => Some((false, m.to_vec())),
        Reading::Uniform(s) => read_slot(s),
        Reading::Pose(_) => None,
    }
}

/// Numbers in the shape that a track expects.
pub fn shape_value(expected: TrackValue, one: bool, row: &Vec<F32>) -> (r: Option<TrackValue>)
    ensures
        r == shaped(expected, one, row@),
{
    let n: usize = row.len();
    match expected {
        TrackValue::Scalar(_) => if one && n >= 1 {
            Some(TrackValue::Scalar(row[0]))
        } else {
            None
        },
        TrackValue::Vec2(_) => if !one && n >= 2 {
            Some(TrackValue::Vec2(Vec2 { x: row[0], y: row[1] }))
        } else {
            None
        },
        TrackValue::Vec3(_) => if !one && n >= 3 {
            Some(TrackValue::Vec3(Vec3 { x: row[0], y: row[1], z: row[2] }))
        } else {
            None
        },
        TrackValue::Vec4(_) => if !one && n >= 4 {
            Some(TrackValue::Vec4(Vec4 { x: row[0], y: row[1], z: row[2], w: row[3] }))
        } else {
            None
        },
        TrackValue::Quat(_) => if !one && n >= 4 {
            Some(TrackValue::Quat(Vec4 { x: row[0], y: row[1], z: row[2], w: row[3] }))
        } else {
            None
        },
    }
}

/// The present value of what a track drives, in the shape that it expects.
pub open spec fn live_value(
    t: TrackTarget,
    expected: TrackValue,
    live: LiveState,
    reg: RegistryView,
    f: Seq<Tree>,
) -> Option<TrackValue> {
    match live_source(t, f) {
        LiveSource::Value(v) => Some(v),
        LiveSource::Readback(rt) => match reading(rt, live, reg, f) {
            Some(r) => match numbers(r) {
                Some(n) => shaped(expected, n.0, n.1),
                None => None,
            },
            None => None,
        },
        LiveSource::Absent => None,
    }
}

/// The present value of what a track drives: what a new key holds. Nothing where
/// it cannot be read now.
pub fn live_track_value(
    t: &TrackTarget,
    expected: TrackValue,
    live: &LiveState,
    reg: &Registry,
    nodes: &Vec<Node>,
) -> (r: Option<TrackValue>)
    ensures
        r == live_value(*t, expected, *live, reg@, forest(nodes@)),
{
    match find_live(t, nodes) {
        LiveSource::Value(v) => Some(v),
        LiveSource::Readback(rt) => match read_readback_target(&rt, live, reg, nodes) {
            Some(reading) => match read_numbers(&reading) {
                Some(n) => shape_value(expected, n.0, &n.1),
                None => None,
            },
            None => None,
        },
        LiveSource::Absent => None,
    }
}

/// A key set from a node's pose holds the pose of the scene, whatever the
/// renderer shows.
pub proof fn law_pose_key_holds_the_scene(
    node: NodeId,
    prop: TransformProp,
    expected: TrackValue,
    one: LiveState,
    other: LiveState,
    reg: RegistryView,
    f: Seq<Tree>,
)
    ensures
        live_value(TrackTarget::Transform { node, prop }, expected, one, reg, f) == live_value(
            TrackTarget::Transform { node, prop },
            expected,
            other,
            reg,
            f,
        ),
{
}

} // verus!
