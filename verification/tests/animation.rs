//! Clips, the mixer, and what the renderer makes of them.
use scene_editor::animation_sync::{
    clips_to_lower, expand_descendants, lower_clip, lower_mixer, node_is_descendant, relower,
    resolve_target, seed_transform_rests, AnimationTarget, ClipKey, LiveMaterial, LowerContext,
    Relower, RenderMode, RenderNode, RenderState, Resolution,
};
use scene_editor::assets::{MeshData, ModifierStack, VertexOverrides};
use scene_editor::clips::{
    CameraParamKind, Clip, Interp, Keyframe, LayerDoc, LayerMode, LoopStyle, PlayDirection,
    SamplerKind, StripDoc, TextureTransformProp, Track, TrackTarget, TrackValue, TransformProp,
};
use scene_editor::command::EditorCommand;
use scene_editor::custom_material::{CustomMaterial, UniformValue};
use scene_editor::dynamic::{build_registration, MaterialShaderId, Registry};
use scene_editor::errors::EditorError;
use scene_editor::ids::{AssetId, NodeId};
use scene_editor::library_edit::ValidKeys;
use scene_editor::list::List;
use scene_editor::node::{
    CameraConfig, CameraProjection, LightConfig, LightParamKind, NodeKind,
};
use scene_editor::palette::{BuiltinParamKind, BuiltinTextureSlot};
use scene_editor::readback::{
    live_track_value, read_readback_target, readback_key, shape_value, CustomState, LiveState,
    MaterialState, Reading, ReadbackTarget, SlotState,
};
use scene_editor::scene_edit::InsertSpec;
use scene_editor::table::Table;
use scene_editor::timeline::{
    ClipCommand, KeyChange, MixerCommand, StepKind, TrackCommand, TransportCommand,
};
use scene_editor::tree::{Node, NodeData};
use scene_editor::values::{Trs, Vec3, Vec4, F32, F64};
use scene_editor::workspace::Workspace;

const CLIP: AssetId = AssetId(100);

fn n(x: f32) -> F32 {
    F32 { bits: x.to_bits() }
}

fn d(x: f64) -> F64 {
    F64 { bits: x.to_bits() }
}

fn v3(x: f32, y: f32, z: f32) -> Vec3 {
    Vec3 { x: n(x), y: n(y), z: n(z) }
}

fn bare(_: &ModifierStack, _: &VertexOverrides, _: &Table<MeshData>) -> MeshData {
    MeshData {
        positions: List::empty(),
        normals: None,
        uvs: List::empty(),
        uvs1: None,
        colors: None,
        tangents: None,
        indices: List::empty(),
    }
}

fn ok(w: &mut Workspace, cmd: EditorCommand) -> Vec<EditorCommand> {
    match w.apply_inner(cmd, &bare) {
        Ok(row) => row,
        Err(e) => panic!("{}", e.message()),
    }
}

fn refused(w: &mut Workspace, cmd: EditorCommand) -> EditorError {
    match w.apply_inner(cmd, &bare) {
        Ok(_) => panic!("refused"),
        Err(e) => e,
    }
}

fn back(w: &mut Workspace, row: Vec<EditorCommand>) {
    for c in row {
        ok(w, c);
    }
}

fn clip(c: ClipCommand) -> EditorCommand {
    EditorCommand::Clip(c)
}

fn track(c: TrackCommand) -> EditorCommand {
    EditorCommand::Track(c)
}

fn transport(c: TransportCommand) -> EditorCommand {
    EditorCommand::Transport(c)
}

fn mixer(c: MixerCommand) -> EditorCommand {
    EditorCommand::Mixer(c)
}

fn moves(node: u128) -> TrackTarget {
    TrackTarget::Transform { node: NodeId(node), prop: TransformProp::Translation }
}

/// A project with a node, a clip and a track.
fn project() -> Workspace {
    let mut w = Workspace::new(ValidKeys { includes: Vec::new(), inputs: Vec::new() });
    ok(&mut w, EditorCommand::Insert { id: NodeId(1), spec: InsertSpec::Empty, parent: None });
    ok(&mut w, clip(ClipCommand::AddClip { id: CLIP, name: None }));
    ok(&mut w, track(TrackCommand::AddTrack { clip: CLIP, target: moves(1) }));
    w
}

fn set_keys(times: &[f64], values: &[f32]) -> EditorCommand {
    track(TrackCommand::SetTrackKeys {
        clip: CLIP,
        track: 0,
        times: List::from_vec(times.iter().map(|t| d(*t)).collect()),
        values: List::from_vec(
            values.iter().map(|x| TrackValue::Vec3(v3(*x, 0.0, 0.0))).collect(),
        ),
        interp: None,
        keys: List::empty(),
    })
}

fn times(w: &Workspace) -> Vec<f64> {
    let t = w.timeline.clips[0].tracks.at(0);
    t.times.to_vec().iter().map(|t| f64::from_bits(t.bits)).collect()
}

fn group(id: u128, children: Vec<Node>) -> Node {
    Node {
        id: NodeId(id),
        data: NodeData {
            name: "n".to_string(),
            transform: Trs { translation: v3(id as f32, 0.0, 0.0), ..Trs::identity() },
            kind: NodeKind::Group,
            visible: true,
            locked: false,
            prefab: false,
        },
        children,
    }
}

fn made(transform: u64) -> RenderNode {
    RenderNode {
        transform_key: transform,
        material_keys: List::empty(),
        light_key: None,
        camera_key: None,
        model_meshes: List::empty(),
    }
}

fn nothing_made() -> RenderState {
    RenderState {
        nodes: Table::new(),
        geometry_morphs: Table::new(),
        uniforms: Table::new(),
        materials: Vec::new(),
    }
}

fn nothing_live() -> LiveState {
    LiveState {
        render: nothing_made(),
        locals: Table::new(),
        worlds: Table::new(),
        materials: Table::new(),
        customs: Vec::new(),
        lights: Table::new(),
        cameras: Table::new(),
        weights: Table::new(),
        templates: Table::new(),
    }
}

fn plain_clip(id: AssetId, tracks: Vec<Track>) -> Clip {
    Clip {
        id,
        name: "Walk".to_string(),
        duration: d(2.0),
        loop_style: LoopStyle::Once,
        speed: d(1.0),
        direction: PlayDirection::Reverse,
        color: "#fff".to_string(),
        tracks: List::from_vec(tracks),
    }
}

fn number(r: Option<Reading>) -> Option<f32> {
    match r {
        Some(Reading::Number(v)) => Some(f32::from_bits(v.bits)),
        _ => None,
    }
}

#[test]
fn clips_are_named_in_order() {
    let mut w = project();
    assert_eq!(w.timeline.clips[0].name, "Clip 1");
    ok(&mut w, clip(ClipCommand::AddClip { id: AssetId(2), name: Some(" ".to_string()) }));
    assert_eq!(w.timeline.clips[1].name, "Clip 2");
    ok(&mut w, clip(ClipCommand::AddClip { id: AssetId(3), name: Some("Run".to_string()) }));
    assert_eq!(w.timeline.clips[2].name, "Run");
    assert_eq!(w.timeline.current_clip, Some(AssetId(3)));
    ok(&mut w, clip(ClipCommand::DuplicateClip { id: AssetId(3), new_id: AssetId(4) }));
    assert_eq!(w.timeline.clips[3].name, "Run copy");
    ok(&mut w, clip(ClipCommand::DeleteClip { id: AssetId(4) }));
    assert_eq!(w.timeline.current_clip, Some(CLIP));
}

#[test]
fn clip_edits_are_taken_back() {
    let mut w = project();
    let row = ok(&mut w, clip(ClipCommand::SetClipDuration { id: CLIP, duration: d(-3.0) }));
    assert_eq!(w.timeline.clips[0].duration, d(0.0));
    back(&mut w, row);
    assert_eq!(w.timeline.clips[0].duration, d(1.0));
    let row = ok(&mut w, clip(ClipCommand::RenameClip { id: CLIP, text: "Idle".to_string() }));
    assert_eq!(w.timeline.clips[0].name, "Idle");
    back(&mut w, row);
    assert_eq!(w.timeline.clips[0].name, "Clip 1");
    let e = refused(
        &mut w,
        clip(ClipCommand::SetClipLoop { id: AssetId(9), loop_style: LoopStyle::Once }),
    );
    assert!(matches!(e, EditorError::TargetNotFound));
}

#[test]
fn keys_are_put_in_order() {
    let mut w = project();
    ok(&mut w, set_keys(&[1.0, 3.0], &[1.0, 3.0]));
    let add = |t: f64, coincident: Option<usize>| {
        track(TrackCommand::AddKeyframe {
            clip: CLIP,
            track: 0,
            time: d(t),
            value: TrackValue::Vec3(v3(9.0, 0.0, 0.0)),
            interp: Some(Interp::Step),
            coincident,
        })
    };
    let row = ok(&mut w, add(2.0, None));
    assert_eq!(times(&w), vec![1.0, 2.0, 3.0]);
    assert_eq!(w.timeline.clips[0].tracks.at(0).keys.at(1).interp, Interp::Step);
    back(&mut w, row);
    assert_eq!(times(&w), vec![1.0, 3.0]);
    let row = ok(&mut w, add(3.0, Some(1)));
    assert_eq!(times(&w), vec![1.0, 3.0]);
    assert_eq!(
        w.timeline.clips[0].tracks.at(0).keys.at(1).value,
        TrackValue::Vec3(v3(9.0, 0.0, 0.0))
    );
    back(&mut w, row);
    assert_eq!(
        w.timeline.clips[0].tracks.at(0).keys.at(1).value,
        TrackValue::Vec3(v3(3.0, 0.0, 0.0))
    );
}

#[test]
fn key_edits_are_taken_back() {
    let mut w = project();
    ok(&mut w, set_keys(&[0.0, 1.0, 2.0], &[0.0, 1.0, 2.0]));
    let row =
        ok(&mut w, track(TrackCommand::DeleteKeyframe { clip: CLIP, track: 0, index: 1 }));
    assert_eq!(times(&w), vec![0.0, 2.0]);
    back(&mut w, row);
    assert_eq!(times(&w), vec![0.0, 1.0, 2.0]);
    let change = KeyChange {
        time: Some(d(0.5)),
        value: None,
        interp: Some(Interp::Cubic),
        in_tangent: None,
        out_tangent: None,
    };
    let row =
        ok(&mut w, track(TrackCommand::SetKeyframe { clip: CLIP, track: 0, index: 1, change }));
    assert_eq!(times(&w), vec![0.0, 0.5, 2.0]);
    assert_eq!(w.timeline.clips[0].tracks.at(0).keys.at(1).interp, Interp::Cubic);
    back(&mut w, row);
    assert_eq!(times(&w), vec![0.0, 1.0, 2.0]);
    assert_eq!(w.timeline.clips[0].tracks.at(0).keys.at(1).interp, Interp::Linear);
}

#[test]
fn track_edits_are_taken_back() {
    let mut w = project();
    ok(&mut w, set_keys(&[0.0], &[5.0]));
    let row = ok(
        &mut w,
        track(TrackCommand::SetTrackSampler {
            clip: CLIP,
            track: 0,
            sampler: SamplerKind::Cubic,
        }),
    );
    assert_eq!(w.timeline.clips[0].tracks.at(0).sampler, SamplerKind::Cubic);
    back(&mut w, row);
    assert_eq!(w.timeline.clips[0].tracks.at(0).sampler, SamplerKind::Linear);
    let row = ok(&mut w, track(TrackCommand::DeleteTrack { clip: CLIP, track: 0 }));
    assert_eq!(w.timeline.clips[0].tracks.len(), 0);
    back(&mut w, row);
    assert_eq!(times(&w), vec![0.0]);
    let row =
        ok(&mut w, track(TrackCommand::SetTrackSolo { clip: CLIP, track: 0, solo: true }));
    assert!(w.timeline.clips[0].tracks.at(0).solo);
    back(&mut w, row);
    assert!(!w.timeline.clips[0].tracks.at(0).solo);
}

#[test]
fn key_rows_must_match() {
    let mut w = project();
    let e = refused(&mut w, set_keys(&[0.0, 1.0], &[0.0]));
    assert_eq!(e.message(), "set_track_keys: 2 times but 1 values");
    let key = Keyframe {
        value: TrackValue::Scalar(n(0.0)),
        interp: Interp::Linear,
        in_tangent: TrackValue::Scalar(n(0.0)),
        out_tangent: TrackValue::Scalar(n(0.0)),
    };
    let e = refused(
        &mut w,
        track(TrackCommand::SetTrackKeys {
            clip: CLIP,
            track: 0,
            times: List::empty(),
            values: List::empty(),
            interp: None,
            keys: List::from_vec(vec![key]),
        }),
    );
    assert_eq!(e.message(), "set_track_keys: 0 times but 1 keys");
}

#[test]
fn track_needs_a_live_target() {
    let mut w = project();
    let row = ok(&mut w, track(TrackCommand::AddTrack { clip: CLIP, target: moves(77) }));
    assert!(row.is_empty(), "no such node: nothing is added");
    assert_eq!(w.timeline.clips[0].tracks.len(), 1);
    let uniform = TrackTarget::Uniform { material: AssetId(5), name: "heat".to_string() };
    ok(&mut w, track(TrackCommand::AddTrack { clip: CLIP, target: uniform }));
    assert_eq!(w.timeline.clips[0].tracks.len(), 1);
    let e = refused(
        &mut w,
        track(TrackCommand::AddTrack { clip: AssetId(9), target: moves(1) }),
    );
    assert!(matches!(e, EditorError::TargetNotFound));
}

#[test]
fn playhead_steps_between_keys() {
    let mut w = project();
    ok(&mut w, clip(ClipCommand::SetClipDuration { id: CLIP, duration: d(10.0) }));
    ok(&mut w, set_keys(&[1.0, 4.0, 8.0], &[0.0, 0.0, 0.0]));
    ok(&mut w, transport(TransportCommand::SetPlayhead { time: d(4.0) }));
    let step = |kind: StepKind, beyond: f64| {
        transport(TransportCommand::StepPlayhead { kind, beyond: d(beyond) })
    };
    ok(&mut w, step(StepKind::Next, 4.001));
    assert_eq!(w.timeline.playhead, d(8.0));
    ok(&mut w, step(StepKind::Next, 8.001));
    assert_eq!(w.timeline.playhead, d(8.0), "no key lies behind");
    ok(&mut w, step(StepKind::Prev, 7.999));
    assert_eq!(w.timeline.playhead, d(4.0));
    ok(&mut w, step(StepKind::End, 0.0));
    assert_eq!(w.timeline.playhead, d(10.0));
    ok(&mut w, step(StepKind::Home, 0.0));
    assert_eq!(w.timeline.playhead, d(0.0));
    ok(&mut w, transport(TransportCommand::SetPlayhead { time: d(-2.0) }));
    assert_eq!(w.timeline.playhead, d(0.0));
    ok(&mut w, transport(TransportCommand::SetAnimFps { fps: 0 }));
    assert_eq!(w.timeline.fps, 1);
}

#[test]
fn mixer_edits_are_taken_back() {
    let mut w = project();
    ok(&mut w, mixer(MixerCommand::AddLayer));
    let row = ok(&mut w, mixer(MixerCommand::SetLayerWeight { layer: 0, weight: n(7.0) }));
    assert_eq!(w.timeline.layers[0].weight, n(1.0), "clamped");
    back(&mut w, row);
    assert_eq!(w.timeline.layers[0].weight, n(1.0));
    ok(
        &mut w,
        mixer(MixerCommand::AddStrip { layer: 0, clip: CLIP, start: d(1.0), len: d(2.0) }),
    );
    let row = ok(
        &mut w,
        mixer(MixerCommand::TrimStrip { layer: 0, strip: 0, start: d(0.0), len: d(-1.0) }),
    );
    assert_eq!(w.timeline.layers[0].strips.at(0).len, d(0.0));
    back(&mut w, row);
    assert_eq!(w.timeline.layers[0].strips.at(0).len, d(2.0));
    let row = ok(&mut w, mixer(MixerCommand::DeleteLayer { layer: 0 }));
    assert!(w.timeline.layers.is_empty());
    back(&mut w, row);
    assert_eq!(w.timeline.layers[0].strips.len(), 1);
    let e = refused(
        &mut w,
        mixer(MixerCommand::MoveStrip { layer: 0, strip: 5, start: d(0.0) }),
    );
    assert!(matches!(e, EditorError::TargetNotFound));
}

#[test]
fn targets_are_live_pending_or_missing() {
    let mut r = nothing_made();
    let mut entry = made(11);
    entry.material_keys = List::from_vec(vec![31, 32]);
    entry.light_key = Some(41);
    entry.camera_key = Some(51);
    entry.model_meshes = List::from_vec(vec![61]);
    r.nodes.insert(1, entry);
    r.nodes.insert(3, made(13));
    r.geometry_morphs.insert(61, 62);
    let nodes = vec![group(1, Vec::new()), group(2, Vec::new()), group(3, Vec::new())];
    let reg = Registry::new();
    let ms: Vec<CustomMaterial> = Vec::new();
    let find = |t: TrackTarget| resolve_target(&t, &r, &reg, &nodes, &ms);
    assert_eq!(find(moves(1)), Resolution::Live(AnimationTarget::Transform(11)));
    assert_eq!(find(moves(2)), Resolution::Pending);
    assert_eq!(find(moves(9)), Resolution::Missing);
    let param = BuiltinParamKind::Roughness;
    assert_eq!(
        find(TrackTarget::BuiltinParam { node: NodeId(1), param }),
        Resolution::Live(AnimationTarget::BuiltinParam { material: 31, param })
    );
    assert_eq!(find(TrackTarget::BuiltinParam { node: NodeId(9), param }), Resolution::Pending);
    let param = LightParamKind::Intensity;
    assert_eq!(
        find(TrackTarget::Light { node: NodeId(1), param }),
        Resolution::Live(AnimationTarget::Light { light: 41, param })
    );
    assert_eq!(find(TrackTarget::Light { node: NodeId(3), param }), Resolution::Pending);
    assert_eq!(
        find(TrackTarget::Morph { node: NodeId(1), index: 0 }),
        Resolution::Live(AnimationTarget::Morph(62))
    );
    assert_eq!(find(TrackTarget::Morph { node: NodeId(3), index: 0 }), Resolution::Pending);
    let param = CameraParamKind::FovY;
    assert_eq!(
        find(TrackTarget::Camera { node: NodeId(1), param }),
        Resolution::Live(AnimationTarget::Camera { camera: 51, param })
    );
    assert_eq!(find(TrackTarget::Camera { node: NodeId(9), param }), Resolution::Missing);
    assert_eq!(
        find(TrackTarget::TextureTransform {
            node: NodeId(1),
            slot: BuiltinTextureSlot::Normal,
            prop: TextureTransformProp::Offset,
        }),
        Resolution::Pending
    );
}

#[test]
fn uniforms_are_found_by_their_shader() {
    let mut r = nothing_made();
    let mut reg = Registry::new();
    let m = CustomMaterial::new(AssetId(5), "Lava".to_string());
    let built = build_registration(&m, &Vec::new());
    let ms = vec![m];
    let nodes: Vec<Node> = Vec::new();
    let heat = |id: u128, name: &str| TrackTarget::Uniform {
        material: AssetId(id),
        name: name.to_string(),
    };
    assert_eq!(resolve_target(&heat(5, "heat"), &r, &reg, &nodes, &ms), Resolution::Pending);
    assert_eq!(resolve_target(&heat(6, "heat"), &r, &reg, &nodes, &ms), Resolution::Missing);
    reg.register(AssetId(5), MaterialShaderId(70), &built);
    r.uniforms.insert(70, List::from_vec(vec!["cold".to_string(), "heat".to_string()]));
    assert_eq!(resolve_target(&heat(5, "heat"), &r, &reg, &nodes, &ms), Resolution::Pending);
    r.materials.push(LiveMaterial { key: 80, shader: None });
    r.materials.push(LiveMaterial { key: 81, shader: Some(MaterialShaderId(70)) });
    assert_eq!(
        resolve_target(&heat(5, "heat"), &r, &reg, &nodes, &ms),
        Resolution::Live(AnimationTarget::Uniform { material: 81, slot: 1 })
    );
    assert_eq!(resolve_target(&heat(5, "wind"), &r, &reg, &nodes, &ms), Resolution::Missing);
}

#[test]
fn soloed_tracks_play_alone() {
    let mut r = nothing_made();
    for i in 1..4u64 {
        r.nodes.insert(i as u128, made(10 + i));
    }
    let nodes = vec![group(1, vec![group(2, Vec::new())]), group(3, Vec::new())];
    let reg = Registry::new();
    let ms: Vec<CustomMaterial> = Vec::new();
    let cx = LowerContext { render: &r, registry: &reg, nodes: &nodes, materials: &ms };
    let mut c = plain_clip(
        CLIP,
        vec![Track::new(moves(1)), Track::new(moves(2)), Track::new(moves(3))],
    );
    let played = |c: &Clip, root: Option<NodeId>| -> Vec<usize> {
        lower_clip(c, &cx, root).channels.iter().map(|x| x.track).collect()
    };
    assert_eq!(played(&c, None), vec![0, 1, 2]);
    assert_eq!(played(&c, Some(NodeId(1))), vec![0, 1]);
    assert_eq!(played(&c, Some(NodeId(2))), vec![1]);
    let mut rows = c.tracks.to_vec();
    rows[2].solo = true;
    c.tracks = List::from_vec(rows);
    assert_eq!(played(&c, None), vec![2]);
    let low = lower_clip(&c, &cx, None);
    assert_eq!(low.name, "Walk");
    assert_eq!(low.loop_style, None);
    assert_eq!(low.direction, PlayDirection::Reverse);
    assert_eq!(low.duration, d(2.0));
}

#[test]
fn each_clip_is_lowered_once() {
    let strip = |id: u128| StripDoc {
        clip: AssetId(id),
        start: d(0.0),
        len: d(1.0),
        scale: d(1.0),
        repeat: false,
    };
    let mut a = LayerDoc::new();
    a.strips = List::from_vec(vec![strip(2), strip(1)]);
    let mut b = LayerDoc::new();
    b.mode = LayerMode::Additive { base_clip: Some(AssetId(3)) };
    b.strips = List::from_vec(vec![strip(2)]);
    let ids = clips_to_lower(Some(AssetId(1)), &vec![a, b]);
    assert_eq!(ids, vec![AssetId(1), AssetId(2)]);
}

#[test]
fn relowering_follows_the_timeline() {
    let mut w = project();
    ok(&mut w, clip(ClipCommand::AddClip { id: AssetId(2), name: None }));
    let r = nothing_made();
    let reg = Registry::new();
    let cx = LowerContext {
        render: &r,
        registry: &reg,
        nodes: &w.nodes,
        materials: &w.library.materials,
    };
    let row = relower(&w.timeline, &cx);
    assert_eq!(row.len(), 1);
    assert_eq!(row[0].id, AssetId(2));
    let mut timer = Relower::new();
    assert!(timer.schedule_relower());
    assert!(!timer.schedule_relower(), "it joins the one that runs");
    timer.due();
    assert!(timer.schedule_relower());
}

#[test]
fn layers_are_limited_to_their_nodes() {
    let nodes = vec![group(1, vec![group(2, Vec::new())]), group(3, Vec::new())];
    let mut entries: Table<RenderNode> = Table::new();
    entries.insert(1, made(11));
    entries.insert(2, made(12));
    let keys = vec![ClipKey { clip: CLIP, key: 900 }];
    let mut open = LayerDoc::new();
    open.strips = List::from_vec(vec![
        StripDoc { clip: AssetId(8), start: d(0.0), len: d(1.0), scale: d(1.0), repeat: false },
        StripDoc { clip: CLIP, start: d(3.0), len: d(1.0), scale: d(1.0), repeat: true },
    ]);
    let mut limited = LayerDoc::new();
    limited.mode = LayerMode::Additive { base_clip: Some(CLIP) };
    limited.mask_nodes = List::from_vec(vec![NodeId(1), NodeId(3)]);
    limited.include_descendants = true;
    let mut flat = LayerDoc::new();
    flat.mask_nodes = List::from_vec(vec![NodeId(1)]);
    flat.include_descendants = false;
    let low = lower_mixer(&vec![open, limited, flat], &nodes, &entries, &keys);
    assert_eq!(low[0].mask, None);
    assert_eq!(low[0].strips.len(), 1, "a strip without a clip is left out");
    assert_eq!((low[0].strips[0].clip, low[0].strips[0].start), (900, d(3.0)));
    assert_eq!(low[1].mode, RenderMode::Additive { base_clip: Some(900) });
    assert_eq!(low[1].mask, Some(vec![11, 12]));
    assert_eq!(low[2].mask, Some(vec![11]));
    assert_eq!(
        expand_descendants(&nodes, &List::from_vec(vec![NodeId(1)])),
        vec![NodeId(1), NodeId(2)]
    );
    assert!(node_is_descendant(&nodes, NodeId(1), NodeId(2)));
    assert!(!node_is_descendant(&nodes, NodeId(1), NodeId(1)));
    assert!(!node_is_descendant(&nodes, NodeId(3), NodeId(2)));
}

#[test]
fn rests_come_from_the_scene() {
    let nodes = vec![group(4, Vec::new())];
    let mut entries: Table<RenderNode> = Table::new();
    entries.insert(4, made(14));
    let c = plain_clip(CLIP, vec![Track::new(moves(4)), Track::new(moves(9))]);
    let rests = seed_transform_rests(&c, &entries, &nodes);
    assert_eq!(rests.len(), 1);
    assert_eq!(rests[0].transform, 14);
    assert_eq!(rests[0].pose.translation, v3(4.0, 0.0, 0.0));
}

#[test]
fn readings_have_keys() {
    let id = "00000000-0000-0000-0000-000000000001";
    let node = NodeId(1);
    for (t, want) in [
        (ReadbackTarget::NodeLocalTrs { node }, format!("local_trs/{id}")),
        (ReadbackTarget::NodeWorldMatrix { node }, format!("world/{id}")),
        (ReadbackTarget::MorphWeight { node, index: 12 }, format!("morph/{id}/12")),
        (
            ReadbackTarget::Uniform { material: AssetId(1), name: "heat".to_string() },
            format!("uniform/{id}/heat"),
        ),
        (
            ReadbackTarget::BuiltinParam { node, param: BuiltinParamKind::SsrMask },
            format!("builtin/{id}/SsrMask"),
        ),
        (
            ReadbackTarget::LightParam { node, param: LightParamKind::InnerAngle },
            format!("light/{id}/InnerAngle"),
        ),
        (
            ReadbackTarget::CameraParam { node, param: CameraParamKind::FocusDistance },
            format!("camera/{id}/FocusDistance"),
        ),
    ] {
        assert_eq!(readback_key(&t), want);
    }
}

#[test]
fn values_are_read_back() {
    let mut live = nothing_live();
    let mut entry = made(11);
    entry.material_keys = List::from_vec(vec![31]);
    entry.light_key = Some(41);
    entry.camera_key = Some(51);
    entry.model_meshes = List::from_vec(vec![61, 62]);
    live.render.nodes.insert(1, entry);
    live.render.geometry_morphs.insert(62, 63);
    live.weights.insert(63, List::from_vec(vec![n(0.25), n(0.75)]));
    live.locals.insert(11, Trs { translation: v3(1.0, 2.0, 3.0), ..Trs::identity() });
    live.worlds.insert(11, List::from_vec(vec![n(1.0); 16]));
    live.materials.insert(
        31,
        MaterialState::Toon {
            base_color: Vec4 { x: n(0.1), y: n(0.2), z: n(0.3), w: n(0.4) },
            emissive: v3(0.0, 0.0, 0.0),
            diffuse_bands: n(4.0),
            specular_steps: n(2.0),
            shininess: n(32.0),
            rim_strength: n(0.0),
            rim_power: n(1.0),
        },
    );
    live.lights.insert(41, LightConfig::Directional { color: Vec3::one(), intensity: n(6.0) });
    live.cameras.insert(
        51,
        CameraConfig {
            projection: CameraProjection::Orthographic { half_height: n(5.0) },
            near: n(0.5),
            far: n(50.0),
            aperture: n(0.0),
            focus_distance: n(9.0),
        },
    );
    let reg = Registry::new();
    let nodes = vec![group(1, Vec::new())];
    let read = |t: ReadbackTarget| read_readback_target(&t, &live, &reg, &nodes);
    let node = NodeId(1);
    assert!(matches!(
        read(ReadbackTarget::NodeLocalTrs { node }),
        Some(Reading::Pose(p)) if p.translation == v3(1.0, 2.0, 3.0)
    ));
    assert!(matches!(
        read(ReadbackTarget::NodeWorldMatrix { node }),
        Some(Reading::Matrix(m)) if m.len() == 16
    ));
    assert_eq!(number(read(ReadbackTarget::MorphWeight { node, index: 1 })), Some(0.75));
    assert!(read(ReadbackTarget::MorphWeight { node, index: 2 }).is_none());
    let builtin = |param| read(ReadbackTarget::BuiltinParam { node, param });
    assert!(matches!(
        builtin(BuiltinParamKind::BaseColor),
        Some(Reading::Color(c)) if c == v3(0.1, 0.2, 0.3)
    ));
    assert_eq!(number(builtin(BuiltinParamKind::ToonShininess)), Some(32.0));
    assert!(builtin(BuiltinParamKind::Metallic).is_none(), "not a factor of this shading");
    let light = |param| read(ReadbackTarget::LightParam { node, param });
    assert_eq!(number(light(LightParamKind::Intensity)), Some(6.0));
    assert!(light(LightParamKind::Range).is_none());
    let camera = |param| read(ReadbackTarget::CameraParam { node, param });
    assert_eq!(number(camera(CameraParamKind::Far)), Some(50.0));
    assert!(camera(CameraParamKind::FovY).is_none());
    assert!(read(ReadbackTarget::NodeLocalTrs { node: NodeId(2) }).is_none());
}

#[test]
fn custom_uniforms_are_read_back() {
    let mut live = nothing_live();
    let mut reg = Registry::new();
    let m = CustomMaterial::new(AssetId(5), "Lava".to_string());
    reg.register(AssetId(5), MaterialShaderId(70), &build_registration(&m, &Vec::new()));
    live.render
        .uniforms
        .insert(70, List::from_vec(vec!["count".to_string(), "tint".to_string()]));
    live.customs.push(CustomState {
        shader: MaterialShaderId(70),
        values: List::from_vec(vec![
            SlotState { value: UniformValue::U32(3), whole: List::from_vec(vec![n(3.0)]) },
            SlotState { value: UniformValue::Vec3(v3(1.0, 2.0, 3.0)), whole: List::empty() },
        ]),
    });
    let nodes: Vec<Node> = Vec::new();
    let uniform = |name: &str| TrackTarget::Uniform {
        material: AssetId(5),
        name: name.to_string(),
    };
    let scalar = TrackValue::Scalar(n(0.0));
    let three = TrackValue::Vec3(Vec3::zero());
    assert_eq!(
        live_track_value(&uniform("count"), scalar, &live, &reg, &nodes),
        Some(TrackValue::Scalar(n(3.0)))
    );
    assert_eq!(
        live_track_value(&uniform("tint"), three, &live, &reg, &nodes),
        Some(TrackValue::Vec3(v3(1.0, 2.0, 3.0)))
    );
    assert_eq!(live_track_value(&uniform("tint"), scalar, &live, &reg, &nodes), None);
    assert_eq!(live_track_value(&uniform("other"), scalar, &live, &reg, &nodes), None);
}

#[test]
fn pose_key_holds_the_scene() {
    let mut live = nothing_live();
    live.render.nodes.insert(1, made(11));
    live.locals.insert(11, Trs { translation: v3(9.0, 9.0, 9.0), ..Trs::identity() });
    let nodes = vec![group(1, Vec::new())];
    let reg = Registry::new();
    let expected = TrackValue::Vec3(Vec3::zero());
    assert_eq!(
        live_track_value(&moves(1), expected, &live, &reg, &nodes),
        Some(TrackValue::Vec3(v3(1.0, 0.0, 0.0)))
    );
    assert_eq!(live_track_value(&moves(2), expected, &live, &reg, &nodes), None);
}

#[test]
fn numbers_take_the_shape_asked_for() {
    let row = vec![n(1.0), n(2.0), n(3.0), n(4.0)];
    let quat = TrackValue::Quat(Vec4::no_rotation());
    assert_eq!(
        shape_value(quat, false, &row),
        Some(TrackValue::Quat(Vec4 { x: n(1.0), y: n(2.0), z: n(3.0), w: n(4.0) }))
    );
    assert_eq!(
        shape_value(TrackValue::Scalar(n(0.0)), true, &row),
        Some(TrackValue::Scalar(n(1.0)))
    );
    assert_eq!(shape_value(TrackValue::Scalar(n(0.0)), false, &row), None);
    assert_eq!(shape_value(quat, false, &vec![n(1.0)]), None);
}
