//! What holds of values that are read back: each is the value of what was asked for,
//! and of nothing else.
use crate::animation_sync::RenderNode;
use crate::bounds::BoundsSource;
use crate::clips::{CameraParamKind, TrackTarget, TrackValue, TransformProp};
use crate::custom_material::UniformValue;
use crate::dynamic::RegistryView;
use crate::find::{first, lemma_first, lemma_first_is};
use crate::ids::{AssetId, NodeId};
use crate::live_query::{
    bytes_of_ring, channel_sum, fallbacks_of, frame_values, plans_of, resizes_of, ring_sum,
    scene_poses, worlds_of, BoundsPlan, NodeWorld, PlayedClip, RingStats,
};
use crate::material::{MaterialAlphaMode, MaterialShading};
use crate::node::{CameraProjection, LightParamKind, NodeKind};
use crate::palette::{param_patched, BuiltinParamKind, MaterialDef};
use crate::readback::{
    factor, holds_slot, live_value, meshes_of, reading, LiveState, MaterialState,
    ReadbackTarget, Reading,
};
use crate::reading_doc::{doc_of, DocView, Leaf};
use crate::tree::{find, Tree};
use crate::values::{F32, Vec3, Vec4};
use vstd::prelude::*;

verus! {

/// Whether the first material of a node is rendered in a state.
pub open spec fn rendered_as(live: LiveState, node: NodeId, m: MaterialState) -> bool {
    let nodes = live.render.nodes@;
    &&& nodes.contains_key(node.0)
    &&& nodes[node.0].material_keys@.len() > 0
    &&& live.materials@.contains_key(nodes[node.0].material_keys@[0] as u128)
    &&& live.materials@[nodes[node.0].material_keys@[0] as u128] == m
}

/// What is read of a material is the factor that was asked for, whatever the other
/// factors are; of a material that does not have it, nothing.
pub proof fn law_factor_is_read_alone(
    node: NodeId,
    param: BuiltinParamKind,
    m: MaterialState,
    live: LiveState,
    reg: RegistryView,
    f: Seq<Tree>,
)
    requires
        rendered_as(live, node, m),
    ensures
        ({
            let r = reading(ReadbackTarget::BuiltinParam { node, param }, live, reg, f);
            match m {
                MaterialState::Pbr {
                    base_color,
                    emissive,
                    metallic,
                    roughness,
                    normal_scale,
                    occlusion_strength,
                    ssr_mask,
                    emissive_strength,
                    alpha_cutoff,
                } => {
                    &&& param == BuiltinParamKind::BaseColor ==> is_color(r, base_color)
                    &&& param == BuiltinParamKind::Emissive ==> r == Some(Reading::Color(emissive))
                    &&& param == BuiltinParamKind::Metallic ==> is_number(r, metallic)
                    &&& param == BuiltinParamKind::Roughness ==> is_number(r, roughness)
                    &&& param == BuiltinParamKind::NormalScale ==> is_number(r, normal_scale)
                    &&& param == BuiltinParamKind::OcclusionStrength ==> is_number(
                        r,
                        occlusion_strength,
                    )
                    &&& param == BuiltinParamKind::SsrMask ==> is_number(r, ssr_mask)
                    &&& param == BuiltinParamKind::EmissiveStrength ==> match emissive_strength {
                        Some(s) => is_number(r, s),
                        None => is_number(r, F32 { bits: 0x3F80_0000 }),
                    }
                    &&& param == BuiltinParamKind::AlphaCutoff ==> match alpha_cutoff {
                        Some(c) => is_number(r, c),
                        None => is_number(r, F32 { bits: 0x3F00_0000 }),
                    }
                    &&& of_other_shading(param) ==> r is None
                },
                MaterialState::Unlit { base_color, emissive } => {
                    &&& param == BuiltinParamKind::BaseColor ==> is_color(r, base_color)
                    &&& param == BuiltinParamKind::Emissive ==> r == Some(Reading::Color(emissive))
                    &&& param != BuiltinParamKind::BaseColor && param != BuiltinParamKind::Emissive
                        ==> r is None
                },
                MaterialState::Toon {
                    base_color,
                    emissive,
                    diffuse_bands,
                    specular_steps,
                    shininess,
                    rim_strength,
                    rim_power,
                } => {
                    &&& param == BuiltinParamKind::BaseColor ==> is_color(r, base_color)
                    &&& param == BuiltinParamKind::Emissive ==> r == Some(Reading::Color(emissive))
                    &&& param == BuiltinParamKind::ToonDiffuseBands ==> is_number(r, diffuse_bands)
                    &&& param == BuiltinParamKind::ToonSpecularSteps ==> is_number(
                        r,
                        specular_steps,
                    )
                    &&& param == BuiltinParamKind::ToonShininess ==> is_number(r, shininess)
                    &&& param == BuiltinParamKind::ToonRimStrength ==> is_number(r, rim_strength)
                    &&& param == BuiltinParamKind::ToonRimPower ==> is_number(r, rim_power)
                    &&& param == BuiltinParamKind::Metallic || param == BuiltinParamKind::Roughness
                        || param == BuiltinParamKind::NormalScale || param
                        == BuiltinParamKind::OcclusionStrength || param == BuiltinParamKind::SsrMask
                        || param == BuiltinParamKind::EmissiveStrength || param
                        == BuiltinParamKind::AlphaCutoff || param == BuiltinParamKind::FlipbookFps
                        || param == BuiltinParamKind::FlipbookTimeOffset ==> r is None
                },
                MaterialState::FlipBook { fps, time_offset } => {
                    &&& param == BuiltinParamKind::FlipbookFps ==> is_number(r, fps)
                    &&& param == BuiltinParamKind::FlipbookTimeOffset ==> is_number(r, time_offset)
                    &&& param != BuiltinParamKind::FlipbookFps && param
                        != BuiltinParamKind::FlipbookTimeOffset ==> r is None
                },
                MaterialState::Custom => r is None,
            }
        }),
{
}

/// Two materials read alike in a factor exactly where they have it alike, however they
/// differ in others.
pub proof fn law_reading_tells_its_factor_apart(a: MaterialState, b: MaterialState)
    requires
        a is Pbr,
        b is Pbr,
    ensures
        (factor(a, BuiltinParamKind::Metallic) == factor(b, BuiltinParamKind::Metallic)) == (
        a->Pbr_metallic == b->Pbr_metallic),
        (factor(a, BuiltinParamKind::Roughness) == factor(b, BuiltinParamKind::Roughness)) == (
        a->Pbr_roughness == b->Pbr_roughness),
        (factor(a, BuiltinParamKind::NormalScale) == factor(b, BuiltinParamKind::NormalScale)) == (
        a->Pbr_normal_scale == b->Pbr_normal_scale),
        (factor(a, BuiltinParamKind::OcclusionStrength) == factor(
            b,
            BuiltinParamKind::OcclusionStrength,
        )) == (a->Pbr_occlusion_strength == b->Pbr_occlusion_strength),
        (factor(a, BuiltinParamKind::SsrMask) == factor(b, BuiltinParamKind::SsrMask)) == (
        a->Pbr_ssr_mask == b->Pbr_ssr_mask),
        (factor(a, BuiltinParamKind::Emissive) == factor(b, BuiltinParamKind::Emissive)) == (
        a->Pbr_emissive == b->Pbr_emissive),
{
}

/// Whether a factor belongs to a shading that is not physically based.
pub open spec fn of_other_shading(param: BuiltinParamKind) -> bool {
    ||| param == BuiltinParamKind::ToonDiffuseBands
    ||| param == BuiltinParamKind::ToonSpecularSteps
    ||| param == BuiltinParamKind::ToonShininess
    ||| param == BuiltinParamKind::ToonRimStrength
    ||| param == BuiltinParamKind::ToonRimPower
    ||| param == BuiltinParamKind::FlipbookFps
    ||| param == BuiltinParamKind::FlipbookTimeOffset
}

/// Whether what was read is a number.
pub open spec fn is_number(r: Option<Reading>, x: F32) -> bool {
    r matches Some(Reading::Number(y)) && y == x
}

/// Whether what was read is a color without its alpha.
pub open spec fn is_color(r: Option<Reading>, c: Vec4) -> bool {
    r matches Some(Reading::Color(v)) && v.x == c.x && v.y == c.y && v.z == c.z
}

/// Whether a material is rendered with the numbers of a definition. The bands and
/// steps of a toon material are left aside, which are rendered as real numbers.
pub open spec fn shows(d: MaterialDef, m: MaterialState) -> bool {
    match d.shading {
        MaterialShading::Pbr => m matches MaterialState::Pbr {
            base_color,
            emissive,
            metallic,
            roughness,
            normal_scale,
            occlusion_strength,
            ssr_mask,
            emissive_strength,
            alpha_cutoff,
        } && {
            &&& base_color == d.base_color
            &&& emissive == d.emissive
            &&& metallic == d.metallic
            &&& roughness == d.roughness
            &&& normal_scale == d.normal_scale
            &&& occlusion_strength == d.occlusion_strength
            &&& ssr_mask == d.ssr_mask
            &&& emissive_strength == d.extensions.emissive_strength
            &&& match d.alpha_mode {
                MaterialAlphaMode::Mask { cutoff } => alpha_cutoff == Some(cutoff),
                _ => alpha_cutoff is None,
            }
        },
        MaterialShading::Unlit => m matches MaterialState::Unlit { base_color, emissive }
            && base_color == d.base_color && emissive == d.emissive,
        MaterialShading::Toon {
            diffuse_bands: _,
            specular_steps: _,
            shininess: a,
            rim_strength: b,
            rim_power: c,
        } => m matches MaterialState::Toon {
            base_color,
            emissive,
            diffuse_bands: _,
            specular_steps: _,
            shininess,
            rim_strength,
            rim_power,
        } && {
            &&& base_color == d.base_color
            &&& emissive == d.emissive
            &&& shininess == a
            &&& rim_strength == b
            &&& rim_power == c
        },
        MaterialShading::FlipBook { fps: a, time_offset: b } => m matches MaterialState::FlipBook {
            fps,
            time_offset,
        } && fps == a && time_offset == b,
    }
}

/// Whether a factor counts bands or steps.
pub open spec fn is_count(param: BuiltinParamKind) -> bool {
    param == BuiltinParamKind::ToonDiffuseBands || param == BuiltinParamKind::ToonSpecularSteps
}

/// A factor that is set is read back, and no other factor reads otherwise than before.
/// The mask of reflections is kept between zero and one.
pub proof fn law_factor_that_is_set_is_read_back(
    d: MaterialDef,
    param: BuiltinParamKind,
    value: Seq<F32>,
    count: u32,
    before: MaterialState,
    after: MaterialState,
    other: BuiltinParamKind,
)
    requires
        crate::material_laws::enough(param, value),
        shows(d, before),
        shows(param_patched(d, param, value, count), after),
        !is_count(param) && !is_count(other),
    ensures
        other != param ==> factor(after, other) == factor(before, other),
        factor(after, param) matches Some(r) ==> match r {
            Reading::Color(c) => c.x == value[0] && c.y == value[1] && c.z == value[2],
            Reading::Number(x) => x == value[0] || param == BuiltinParamKind::SsrMask || (param
                == BuiltinParamKind::AlphaCutoff && !(d.alpha_mode is Mask)),
            _ => false,
        },
        (factor(after, param) is Some) == (factor(before, param) is Some),
{
}

/// What is read of a light is the setting that was asked for, where its kind has it.
pub proof fn law_light_setting_is_read_alone(
    node: NodeId,
    param: LightParamKind,
    key: u64,
    live: LiveState,
    reg: RegistryView,
    f: Seq<Tree>,
)
    requires
        live.render.nodes@.contains_key(node.0),
        live.render.nodes@[node.0].light_key == Some(key),
        live.lights@.contains_key(key as u128),
    ensures
        ({
            let r = reading(ReadbackTarget::LightParam { node, param }, live, reg, f);
            let (color, intensity, range, inner, outer) = crate::material_laws::light_parts(
                live.lights@[key as u128],
            );
            match param {
                LightParamKind::Color => r == Some(Reading::Color(color)),
                LightParamKind::Intensity => is_number(r, intensity),
                LightParamKind::Range => reads(r, range),
                LightParamKind::InnerAngle => reads(r, inner),
                LightParamKind::OuterAngle => reads(r, outer),
            }
        }),
{
}

/// Whether what was read is a number that may be missing.
pub open spec fn reads(r: Option<Reading>, x: Option<F32>) -> bool {
    match x {
        Some(x) => is_number(r, x),
        None => r is None,
    }
}

/// What is read of a camera is the setting that was asked for; the field of view only
/// where there is perspective.
pub proof fn law_camera_setting_is_read_alone(
    node: NodeId,
    param: CameraParamKind,
    key: u64,
    live: LiveState,
    reg: RegistryView,
    f: Seq<Tree>,
)
    requires
        live.render.nodes@.contains_key(node.0),
        live.render.nodes@[node.0].camera_key == Some(key),
        live.cameras@.contains_key(key as u128),
    ensures
        ({
            let r = reading(ReadbackTarget::CameraParam { node, param }, live, reg, f);
            let c = live.cameras@[key as u128];
            match param {
                CameraParamKind::FovY => match c.projection {
                    CameraProjection::Perspective { fov_y } => is_number(r, fov_y),
                    CameraProjection::Orthographic { half_height: _ } => r is None,
                },
                CameraParamKind::Near => is_number(r, c.near),
                CameraParamKind::Far => is_number(r, c.far),
                CameraParamKind::Aperture => is_number(r, c.aperture),
                CameraParamKind::FocusDistance => is_number(r, c.focus_distance),
            }
        }),
{
}

/// The placement and the world matrix that are read are those of the node's own
/// transform.
pub proof fn law_placement_is_read_from_its_transform(
    node: NodeId,
    live: LiveState,
    reg: RegistryView,
    f: Seq<Tree>,
)
    ensures
        ({
            let local = reading(ReadbackTarget::NodeLocalTrs { node }, live, reg, f);
            let world = reading(ReadbackTarget::NodeWorldMatrix { node }, live, reg, f);
            let made = live.render.nodes@.contains_key(node.0);
            let key = live.render.nodes@[node.0].transform_key as u128;
            &&& (local is Some) == (made && live.locals@.contains_key(key))
            &&& local is Some ==> local->0 == Reading::Pose(live.locals@[key])
            &&& (world is Some) == (made && live.worlds@.contains_key(key))
            &&& world is Some ==> world->0 == Reading::Matrix(live.worlds@[key])
        }),
{
}

/// A morph weight that is read is the one at its index, of the first mesh of the node
/// that has morph targets.
pub proof fn law_morph_weight_is_read_at_its_index(
    node: NodeId,
    index: usize,
    live: LiveState,
    reg: RegistryView,
    f: Seq<Tree>,
    i: int,
)
    requires
        ({
            let meshes = meshes_of(live.render.nodes@, live.templates@, f, node);
            &&& 0 <= i < meshes.len()
            &&& live.render.geometry_morphs@.contains_key(meshes[i] as u128)
            &&& forall|j: int|
                0 <= j < i ==> !live.render.geometry_morphs@.contains_key(
                    #[trigger] meshes[j] as u128,
                )
        }),
    ensures
        ({
            let meshes = meshes_of(live.render.nodes@, live.templates@, f, node);
            let key = live.render.geometry_morphs@[meshes[i] as u128] as u128;
            let r = reading(ReadbackTarget::MorphWeight { node, index }, live, reg, f);
            &&& (r is Some) == (live.weights@.contains_key(key) && index
                < live.weights@[key]@.len())
            &&& r is Some ==> is_number(r, live.weights@[key]@[index as int])
        }),
{
    let meshes = meshes_of(live.render.nodes@, live.templates@, f, node);
    lemma_first_is(meshes, crate::readback::morphs(live.render.geometry_morphs@), i);
}

/// A uniform that is read is the value of the slot with that name, of what renders
/// with the shader of that material.
pub proof fn law_uniform_is_read_by_name(
    material: AssetId,
    name: String,
    live: LiveState,
    reg: RegistryView,
    f: Seq<Tree>,
)
    ensures
        reading(ReadbackTarget::Uniform { material, name }, live, reg, f) matches Some(r) ==> {
            &&& reg.shaders.contains_key(material.0)
            &&& exists|i: int, slot: int|
                0 <= i < live.customs@.len() && 0 <= slot < live.customs@[i].values@.len() && {
                    let shader = reg.shaders[material.0];
                    let names = live.render.uniforms@[shader.0 as u128]@;
                    &&& live.customs@[i].shader == shader
                    &&& live.render.uniforms@.contains_key(shader.0 as u128)
                    &&& slot < names.len()
                    &&& names[slot]@ == name@
                    &&& r == Reading::Uniform(#[trigger] live.customs@[i].values@[slot])
                }
        },
{
    let r = reading(ReadbackTarget::Uniform { material, name }, live, reg, f);
    if r is Some {
        let shader = reg.shaders[material.0];
        let names = live.render.uniforms@[shader.0 as u128]@;
        let p = crate::animation_sync::is_name(name@);
        let slot = first(names, p);
        lemma_first(names, p);
        let i = first(live.customs@, holds_slot(shader, slot));
        lemma_first(live.customs@, holds_slot(shader, slot));
        assert(p(names[slot]));
        assert(holds_slot(shader, slot)(live.customs@[i]));
        assert(r->0 == Reading::Uniform(live.customs@[i].values@[slot]));
    }
}

/// Whether a value has the parts of a row of numbers, from the first on.
pub open spec fn has_parts(v: TrackValue, row: Seq<F32>) -> bool {
    match v {
        TrackValue::Scalar(x) => row.len() >= 1 && x == row[0],
        TrackValue::Vec2(a) => row.len() >= 2 && a.x == row[0] && a.y == row[1],
        TrackValue::Vec3(a) => row.len() >= 3 && a.x == row[0] && a.y == row[1] && a.z == row[2],
        TrackValue::Vec4(a) => row.len() >= 4 && a.x == row[0] && a.y == row[1] && a.z == row[2]
            && a.w == row[3],
        TrackValue::Quat(a) => row.len() >= 4 && a.x == row[0] && a.y == row[1] && a.z == row[2]
            && a.w == row[3],
    }
}

/// Whether two values are of one shape.
pub open spec fn same_shape(a: TrackValue, b: TrackValue) -> bool {
    match (a, b) {
        (TrackValue::Scalar(_), TrackValue::Scalar(_)) => true,
        (TrackValue::Vec2(_), TrackValue::Vec2(_)) => true,
        (TrackValue::Vec3(_), TrackValue::Vec3(_)) => true,
        (TrackValue::Vec4(_), TrackValue::Vec4(_)) => true,
        (TrackValue::Quat(_), TrackValue::Quat(_)) => true,
        _ => false,
    }
}

/// The numbers of what was read, in order.
pub open spec fn parts_of(r: Reading) -> Seq<F32> {
    match r {
        Reading::Number(x) => seq![x],
        Reading::Color(c) => seq![c.x, c.y, c.z],
        Reading::Pose(_) => seq![],
        Reading::Matrix(m) => m@,
        Reading::Uniform(s) => match s.value {
            UniformValue::F32(x) => seq![x],
            UniformValue::Vec2(a) => seq![a.x, a.y],
            UniformValue::Vec3(a) => seq![a.x, a.y, a.z],
            UniformValue::Vec4(a) => seq![a.x, a.y, a.z, a.w],
            UniformValue::Color3(a) => seq![a.x, a.y, a.z],
            UniformValue::Color4(a) => seq![a.x, a.y, a.z, a.w],
            UniformValue::Mat3(m) => m@,
            UniformValue::Mat4(m) => m@,
            UniformValue::U32(_) => s.whole@,
            UniformValue::IVec2(..) => s.whole@,
            UniformValue::IVec3(..) => s.whole@,
            UniformValue::IVec4(..) => s.whole@,
            UniformValue::Bool(_) => seq![],
        },
    }
}

/// What a track is asked to read is what it drives.
pub open spec fn asks_for(t: TrackTarget, q: ReadbackTarget) -> bool {
    match (t, q) {
        (
            TrackTarget::Morph { node: a, index: i },
            ReadbackTarget::MorphWeight { node: b, index: j },
        ) => a == b && i == j,
        (
            TrackTarget::Uniform { material: a, name: i },
            ReadbackTarget::Uniform { material: b, name: j },
        ) => a == b && i == j,
        (
            TrackTarget::BuiltinParam { node: a, param: i },
            ReadbackTarget::BuiltinParam { node: b, param: j },
        ) => a == b && i == j,
        (
            TrackTarget::Light { node: a, param: i },
            ReadbackTarget::LightParam { node: b, param: j },
        ) => a == b && i == j,
        (
            TrackTarget::Camera { node: a, param: i },
            ReadbackTarget::CameraParam { node: b, param: j },
        ) => a == b && i == j,
        _ => false,
    }
}

/// A key that is set from what is shown holds it: of a placement, that part of how the
/// node stands in the scene; of all else, the numbers that are read of what the track
/// drives, in order, in the shape that the track has.
pub proof fn law_key_holds_what_is_shown(
    t: TrackTarget,
    expected: TrackValue,
    live: LiveState,
    reg: RegistryView,
    f: Seq<Tree>,
    q: ReadbackTarget,
)
    ensures
        ({
            let v = live_value(t, expected, live, reg, f);
            &&& t matches TrackTarget::Transform { node, prop } ==> {
                &&& (v is Some) == (find(f, node) is Some)
                &&& v is Some ==> {
                    let pose = find(f, node)->0.data.transform;
                    match prop {
                        TransformProp::Translation => v->0 == TrackValue::Vec3(pose.translation),
                        TransformProp::Rotation => v->0 == TrackValue::Quat(pose.rotation),
                        TransformProp::Scale => v->0 == TrackValue::Vec3(pose.scale),
                    }
                }
            }
            &&& asks_for(t, q) && v is Some ==> {
                let r = reading(q, live, reg, f);
                &&& r is Some
                &&& same_shape(v->0, expected)
                &&& has_parts(v->0, parts_of(r->0))
            }
            &&& asks_for(t, q) ==> (reading(q, live, reg, f) matches Some(Reading::Number(x)) ==> (
            expected is Scalar ==> v == Some(TrackValue::Scalar(x))))
            &&& asks_for(t, q) ==> (reading(q, live, reg, f) matches Some(Reading::Color(c)) ==> (
            expected is Vec3 ==> v == Some(TrackValue::Vec3(c))))
            &&& t is TextureTransform ==> v is None
        }),
{
}

/// The values of a frame are those of the targets, in order.
pub proof fn law_frame_reads_each_target(
    targets: Seq<ReadbackTarget>,
    live: LiveState,
    reg: RegistryView,
    f: Seq<Tree>,
    i: int,
)
    requires
        0 <= i < targets.len(),
    ensures
        frame_values(targets, live, reg, f).len() == targets.len(),
        frame_values(targets, live, reg, f)[i] == reading(targets[i], live, reg, f),
{
}

/// Whether a row that is written out holds these numbers.
pub open spec fn writes(row: Seq<Leaf>, xs: Seq<F32>) -> bool {
    row.len() == xs.len() && forall|i: int|
        0 <= i < row.len() ==> #[trigger] row[i] == Leaf::Real(xs[i])
}

/// What was read is written out with all its numbers, in order, and each part of a
/// pose under its name.
pub proof fn law_reading_is_written_out_whole(r: Reading)
    ensures
        match (r, doc_of(Some(r))) {
            (Reading::Number(x), DocView::One(Leaf::Real(y))) => x == y,
            (Reading::Color(c), DocView::Row(row)) => writes(row, seq![c.x, c.y, c.z]),
            (Reading::Matrix(m), DocView::Row(row)) => writes(row, m@),
            (Reading::Pose(p), DocView::Named(rows)) => {
                &&& rows.len() == 3
                &&& rows[0].0 == "translation"@
                &&& writes(rows[0].1, seq![p.translation.x, p.translation.y, p.translation.z])
                &&& rows[1].0 == "rotation"@
                &&& writes(
                    rows[1].1,
                    seq![p.rotation.x, p.rotation.y, p.rotation.z, p.rotation.w],
                )
                &&& rows[2].0 == "scale"@
                &&& writes(rows[2].1, seq![p.scale.x, p.scale.y, p.scale.z])
            },
            (Reading::Uniform(s), d) => match (s.value, d) {
                (UniformValue::F32(x), DocView::One(Leaf::Real(y))) => x == y,
                (UniformValue::U32(x), DocView::One(Leaf::Whole(y))) => x == y,
                (UniformValue::Bool(x), DocView::One(Leaf::Truth(y))) => x == y,
                (UniformValue::Vec2(a), DocView::Row(row)) => writes(row, seq![a.x, a.y]),
                (UniformValue::Vec3(a), DocView::Row(row)) => writes(row, seq![a.x, a.y, a.z]),
                (UniformValue::Color3(a), DocView::Row(row)) => writes(row, seq![a.x, a.y, a.z]),
                (UniformValue::Vec4(a), DocView::Row(row)) => writes(
                    row,
                    seq![a.x, a.y, a.z, a.w],
                ),
                (UniformValue::Color4(a), DocView::Row(row)) => writes(
                    row,
                    seq![a.x, a.y, a.z, a.w],
                ),
                (UniformValue::IVec2(a, b), DocView::Row(row)) => row.len() == 2 && whole(row[0], a)
                    && whole(row[1], b),
                (UniformValue::IVec3(a, b, c), DocView::Row(row)) => row.len() == 3 && whole(
                    row[0],
                    a,
                ) && whole(row[1], b) && whole(row[2], c),
                (UniformValue::IVec4(a, b, c, e), DocView::Row(row)) => row.len() == 4 && whole(
                    row[0],
                    a,
                ) && whole(row[1], b) && whole(row[2], c) && whole(row[3], e),
                (UniformValue::Mat3(m), DocView::Row(row)) => writes(row, m@),
                (UniformValue::Mat4(m), DocView::Row(row)) => writes(row, m@),
                _ => false,
            },
            _ => false,
        },
{
}

/// Whether a value is a whole number.
pub open spec fn whole(x: Leaf, n: i32) -> bool {
    x matches Leaf::Whole(y) && y == n
}

/// The poses that a subtree is reset to are how its nodes stand in the scene.
pub proof fn law_reset_poses_are_those_of_the_scene(
    f: Seq<Tree>,
    row: Seq<NodeId>,
    made: Map<u128, RenderNode>,
)
    ensures
        forall|i: int|
            0 <= i < scene_poses(f, row, made).len() ==> exists|j: int|
                0 <= j < row.len() && stands(
                    f,
                    #[trigger] row[j],
                    made,
                    (#[trigger] scene_poses(f, row, made)[i]).transform,
                    scene_poses(f, row, made)[i].pose,
                ),
        forall|j: int|
            0 <= j < row.len() && made.contains_key((#[trigger] row[j]).0) && find(
                f,
                row[j],
            ) is Some ==> exists|i: int|
                0 <= i < scene_poses(f, row, made).len() && stands(
                    f,
                    row[j],
                    made,
                    (#[trigger] scene_poses(f, row, made)[i]).transform,
                    scene_poses(f, row, made)[i].pose,
                ),
    decreases row.len(),
{
    let r = scene_poses(f, row, made);
    if row.len() > 0 {
        let less = row.drop_last();
        law_reset_poses_are_those_of_the_scene(f, less, made);
        let a = scene_poses(f, less, made);
        assert forall|i: int| 0 <= i < r.len() implies exists|j: int|
            0 <= j < row.len() && stands(
                f,
                #[trigger] row[j],
                made,
                (#[trigger] r[i]).transform,
                r[i].pose,
            ) by {
            if i < a.len() {
                assert(r[i] == a[i]);
                let j = choose|j: int|
                    0 <= j < less.len() && stands(
                        f,
                        #[trigger] less[j],
                        made,
                        a[i].transform,
                        a[i].pose,
                    );
                assert(row[j] == less[j]);
            } else {
                assert(stands(f, row[row.len() - 1], made, r[i].transform, r[i].pose));
            }
        }
        assert forall|j: int|
            0 <= j < row.len() && made.contains_key((#[trigger] row[j]).0) && find(
                f,
                row[j],
            ) is Some implies exists|i: int|
            0 <= i < r.len() && stands(
                f,
                row[j],
                made,
                (#[trigger] r[i]).transform,
                r[i].pose,
            ) by {
            if j < less.len() {
                assert(less[j] == row[j]);
                let i = choose|i: int|
                    0 <= i < a.len() && stands(
                        f,
                        less[j],
                        made,
                        (#[trigger] a[i]).transform,
                        a[i].pose,
                    );
                assert(r[i] == a[i]);
            } else {
                let n = a.len() as int;
                assert(stands(f, row[j], made, r[n].transform, r[n].pose));
            }
        }
    }
}

/// Whether a node stands in the scene with a pose, and the renderer has it under a
/// transform.
pub open spec fn stands(
    f: Seq<Tree>,
    id: NodeId,
    made: Map<u128, RenderNode>,
    transform: u64,
    pose: crate::values::Trs,
) -> bool {
    &&& find(f, id) is Some
    &&& find(f, id)->0.data.transform == pose
    &&& made.contains_key(id.0)
    &&& made[id.0].transform_key == transform
}

/// The world matrices that are told are those of the nodes' own transforms, and a node
/// that the renderer has is told of.
pub proof fn law_worlds_are_those_of_their_nodes(live: LiveState, f: Seq<Tree>, row: Seq<NodeId>)
    ensures
        forall|i: int|
            0 <= i < worlds_of(live, f, row).len() ==> is_world(
                live,
                f,
                (#[trigger] worlds_of(live, f, row)[i]).node,
                worlds_of(live, f, row)[i].matrix,
            ) && row.contains(worlds_of(live, f, row)[i].node),
        forall|j: int, m: crate::list::List<F32>|
            0 <= j < row.len() && #[trigger] is_world(live, f, row[j], m) ==> exists|i: int|
                0 <= i < worlds_of(live, f, row).len() && #[trigger] worlds_of(live, f, row)[i]
                    == (NodeWorld { node: row[j], matrix: m }),
    decreases row.len(),
{
    let r = worlds_of(live, f, row);
    if row.len() > 0 {
        let less = row.drop_last();
        law_worlds_are_those_of_their_nodes(live, f, less);
        let a = worlds_of(live, f, less);
        assert forall|i: int| 0 <= i < r.len() implies is_world(
            live,
            f,
            (#[trigger] r[i]).node,
            r[i].matrix,
        ) && row.contains(r[i].node) by {
            if i < a.len() {
                assert(r[i] == a[i]);
                let j = choose|j: int| 0 <= j < less.len() && less[j] == a[i].node;
                assert(row[j] == r[i].node);
            } else {
                assert(row[row.len() - 1] == r[i].node);
            }
        }
        assert forall|j: int, m: crate::list::List<F32>|
            0 <= j < row.len() && #[trigger] is_world(live, f, row[j], m) implies exists|i: int|
            0 <= i < r.len() && #[trigger] r[i] == (NodeWorld { node: row[j], matrix: m }) by {
            if j < less.len() {
                assert(less[j] == row[j]);
                let i = choose|i: int|
                    0 <= i < a.len() && #[trigger] a[i] == (NodeWorld { node: less[j], matrix: m });
                assert(r[i] == a[i]);
            } else {
                assert(r[a.len() as int] == (NodeWorld { node: row[j], matrix: m }));
            }
        }
    }
}

/// Whether a matrix is the world matrix of a node of the scene.
pub open spec fn is_world(
    live: LiveState,
    f: Seq<Tree>,
    node: NodeId,
    m: crate::list::List<F32>,
) -> bool {
    let made = live.render.nodes@;
    &&& find(f, node) is Some
    &&& made.contains_key(node.0)
    &&& live.worlds@.contains_key(made[node.0].transform_key as u128)
    &&& live.worlds@[made[node.0].transform_key as u128] == m
}

/// Whether the box of a node is found where its kind keeps it.
pub open spec fn plans_box(p: BoundsPlan, k: NodeKind, made: Map<u128, RenderNode>) -> bool {
    &&& p.rigid == (k is Collider)
    &&& (p.transform is Some) == made.contains_key(p.node.0)
    &&& p.transform is Some ==> p.transform->0 == made[p.node.0].transform_key
    &&& match k {
        NodeKind::Mesh { mesh, palette: _, shadow: _, lod: _ } => p.source
            == BoundsSource::Geometry(mesh),
        NodeKind::SkinnedMesh { skin, palette: _, shadow: _, lod: _ } => p.source matches
            BoundsSource::BindPose { source, node_index, primitive } && source == skin.source
            && node_index == skin.node_index && primitive == skin.primitive_index,
        NodeKind::Collider(_) => p.source == BoundsSource::Shape,
        NodeKind::Instancer(d) => p.source == BoundsSource::Copies(d.mesh),
        _ => p.source == BoundsSource::Unit,
    }
}

/// Every node that is asked for has its box planned, in order, from what its kind says.
pub proof fn law_boxes_are_found_by_kind(made: Map<u128, RenderNode>, f: Seq<Tree>, row: Seq<NodeId>)
    requires
        forall|j: int| 0 <= j < row.len() ==> find(f, #[trigger] row[j]) is Some,
    ensures
        plans_of(made, f, row).len() == row.len(),
        forall|j: int|
            0 <= j < row.len() ==> (#[trigger] plans_of(made, f, row)[j]).node == row[j]
                && plans_box(plans_of(made, f, row)[j], find(f, row[j])->0.data.kind, made),
    decreases row.len(),
{
    if row.len() > 0 {
        let less = row.drop_last();
        assert forall|j: int| 0 <= j < less.len() implies find(f, #[trigger] less[j]) is Some by {
            assert(find(f, row[j]) is Some);
        }
        law_boxes_are_found_by_kind(made, f, less);
        let a = plans_of(made, f, less);
        let r = plans_of(made, f, row);
        assert(find(f, row[row.len() - 1]) is Some);
        assert forall|j: int| 0 <= j < row.len() implies (#[trigger] r[j]).node == row[j]
            && plans_box(r[j], find(f, row[j])->0.data.kind, made) by {
            if j < less.len() {
                assert(r[j] == a[j]);
                assert(less[j] == row[j]);
            }
        }
    }
}

/// One more ring adds what it reports to the sums, part by part.
pub proof fn law_rings_add_up(rings: Seq<RingStats>, s: RingStats)
    ensures
        ring_sum(rings.push(s), fallbacks_of()) == ring_sum(rings, fallbacks_of()) + s.fallbacks,
        ring_sum(rings.push(s), bytes_of_ring()) == ring_sum(rings, bytes_of_ring()) + s.ring_bytes
            + s.fallback_bytes + s.direct_bytes,
        ring_sum(rings.push(s), resizes_of()) == ring_sum(rings, resizes_of()) + s.resizes,
        ring_sum(Seq::empty(), fallbacks_of()) == 0,
        ring_sum(Seq::empty(), bytes_of_ring()) == 0,
        ring_sum(Seq::empty(), resizes_of()) == 0,
{
    assert(rings.push(s).drop_last() =~= rings);
}

/// One more clip adds its channels to the sum.
pub proof fn law_channels_add_up(clips: Seq<PlayedClip>, c: PlayedClip)
    ensures
        channel_sum(clips.push(c)) == channel_sum(clips) + c.channels,
        channel_sum(Seq::empty()) == 0,
{
    assert(clips.push(c).drop_last() =~= clips);
}

} // verus!
