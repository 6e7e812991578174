//! What the renderer is asked, and reloading a project.
use scene_editor::animation_sync::{RenderNode, RenderState};
use scene_editor::assets::{
    AssetEntry, AssetSource, MeshData, ModifierStack, PrimitiveShape, VertexOverrides,
};
use scene_editor::bounds::BoundsSource;
use scene_editor::bundle::{judge_roundtrip, roundtrip_text, split_bundle, BundleFile};
use scene_editor::command::EditorCommand;
use scene_editor::compiling::registered_text;
use scene_editor::controller::EditorController;
use scene_editor::dynamic::Registry;
use scene_editor::ids::{AssetId, NodeId};
use scene_editor::library_edit::ValidKeys;
use scene_editor::list::List;
use scene_editor::live_query::{
    animation_runtime, bounds_plans, frame_keys, morph_data, morph_keys_of, node_worlds,
    read_frame, reset_pose, ring_totals, set_morph_weight, PlayedClip, RingStats,
};
use scene_editor::custom_material::UniformValue;
use scene_editor::mesh_query::measured_mesh;
use scene_editor::node::{ColliderShape, NodeKind};
use scene_editor::query_errors::QueryError;
use scene_editor::readback::{LiveState, Reading, ReadbackTarget, SlotState};
use scene_editor::reading_doc::{reading_doc, Leaf, ReadingDoc};
use scene_editor::scene_edit::InsertSpec;
use scene_editor::skin::SkinStream;
use scene_editor::table::Table;
use scene_editor::timeline::{ClipCommand, Timeline};
use scene_editor::tree::{Node, NodeData};
use scene_editor::values::{Trs, Vec3, F32, F64};
use scene_editor::workspace::Workspace;
use scene_editor::world::{EnvSlot, EnvironmentConfig};

fn n(x: f32) -> F32 {
    F32 { bits: x.to_bits() }
}

fn place(x: f32) -> Trs {
    Trs { translation: Vec3 { x: n(x), y: n(0.0), z: n(0.0) }, ..Trs::identity() }
}

fn node(id: u128, kind: NodeKind, children: Vec<Node>) -> Node {
    Node {
        id: NodeId(id),
        data: NodeData {
            name: "n".to_string(),
            transform: place(id as f32),
            kind,
            visible: true,
            locked: false,
            prefab: false,
        },
        children,
    }
}

fn made(key: u64, meshes: Vec<u64>) -> RenderNode {
    RenderNode {
        transform_key: key,
        material_keys: List::empty(),
        light_key: None,
        camera_key: None,
        model_meshes: List::from_vec(meshes),
    }
}

/// Node 1 with node 2 below it, and a collider.
fn scene() -> Vec<Node> {
    vec![
        node(1, NodeKind::Group, vec![node(2, NodeKind::Group, Vec::new())]),
        node(3, NodeKind::Collider(ColliderShape::Sphere { radius: n(1.0) }), Vec::new()),
    ]
}

fn live() -> LiveState {
    let mut nodes: Table<RenderNode> = Table::new();
    nodes.insert(1, made(11, vec![21, 22]));
    nodes.insert(2, made(12, Vec::new()));
    let mut geometry_morphs: Table<u64> = Table::new();
    geometry_morphs.insert(21, 31);
    geometry_morphs.insert(22, 32);
    let mut weights: Table<List<F32>> = Table::new();
    weights.insert(32, List::from_vec(vec![n(0.5), n(0.25)]));
    let mut worlds: Table<List<F32>> = Table::new();
    worlds.insert(12, List::from_vec(vec![n(1.0); 16]));
    let mut locals: Table<Trs> = Table::new();
    locals.insert(11, place(7.0));
    LiveState {
        render: RenderState { nodes, geometry_morphs, uniforms: Table::new(), materials: Vec::new() },
        locals,
        worlds,
        materials: Table::new(),
        customs: Vec::new(),
        lights: Table::new(),
        cameras: Table::new(),
        weights,
        templates: Table::new(),
    }
}

fn bare(_: &ModifierStack, _: &VertexOverrides, _: &Table<MeshData>) -> MeshData {
    MeshData {
        positions: List::empty(),
        normals: None,
        uvs: List::empty(),
        uvs1: None,
        colors: None,
        tangents: None,
        indices: List::empty(),
    }
}

fn file(path: &str, byte: u8) -> BundleFile {
    BundleFile { path: path.to_string(), bytes: List::from_vec(vec![byte]) }
}

#[test]
fn first_readable_weights_are_told() {
    let lines = morph_data(&live(), &scene(), &List::empty());
    assert_eq!(lines.len(), 1, "nodes without weights are left out");
    assert_eq!(lines[0].node, NodeId(1));
    assert_eq!(lines[0].weights.to_vec(), vec![n(0.5), n(0.25)]);
    assert!(lines[0].names.is_empty());
    assert!(morph_data(&live(), &scene(), &List::from_vec(vec![NodeId(2)])).is_empty());
}

#[test]
fn one_weight_is_changed() {
    let l = live();
    assert_eq!(morph_keys_of(&l, &scene(), NodeId(1), &l.render.geometry_morphs), vec![31, 32]);
    let mut row = vec![n(0.0), n(0.0)];
    set_morph_weight(&mut row, 1, n(1.0));
    set_morph_weight(&mut row, 2, n(9.0));
    assert_eq!(row, vec![n(0.0), n(1.0)]);
}

#[test]
fn pose_is_reset_to_the_scene() {
    let l = live();
    let poses = reset_pose(&scene(), NodeId(1), &l.render.nodes);
    assert_eq!(poses.len(), 2);
    assert_eq!((poses[0].transform, poses[0].pose), (11, place(1.0)));
    assert_eq!((poses[1].transform, poses[1].pose), (12, place(2.0)));
    assert!(reset_pose(&scene(), NodeId(9), &l.render.nodes).is_empty());
}

#[test]
fn worlds_are_those_the_renderer_has() {
    let row = node_worlds(&live(), &scene(), &List::empty());
    assert_eq!(row.len(), 1);
    assert_eq!(row[0].node, NodeId(2));
    assert_eq!(row[0].matrix.len(), 16);
}

#[test]
fn boxes_are_planned() {
    let l = live();
    let plans = bounds_plans(&l.render.nodes, &scene(), &List::from_vec(vec![NodeId(3), NodeId(1)]));
    assert_eq!(plans[0].source, BoundsSource::Shape);
    assert!(plans[0].rigid);
    assert_eq!(plans[0].transform, None);
    assert_eq!((plans[1].source, plans[1].rigid), (BoundsSource::Unit, false));
    assert_eq!(plans[1].transform, Some(11));
}

#[test]
fn frame_has_a_value_for_each_key() {
    let targets = vec![
        ReadbackTarget::NodeLocalTrs { node: NodeId(1) },
        ReadbackTarget::MorphWeight { node: NodeId(9), index: 0 },
    ];
    let keys = frame_keys(&targets);
    assert_eq!(keys[0], "local_trs/00000000-0000-0000-0000-000000000001");
    let f = read_frame(F64::one(), &targets, &live(), &Registry::new(), &scene());
    assert_eq!(f.time, F64::one());
    assert!(matches!(f.values[0], Some(Reading::Pose(p)) if p == place(7.0)));
    assert!(f.values[1].is_none());
}

#[test]
fn runtime_counts_channels() {
    let mut t = Timeline::new();
    let clips = vec![
        PlayedClip { name: "a".to_string(), channels: 3 },
        PlayedClip { name: "b".to_string(), channels: 4 },
    ];
    let r = animation_runtime(&t, &clips);
    assert_eq!((r.clip_groups, r.resolved_channels, r.authored_tracks), (2, 7, 0));
    t.playing = true;
    assert!(animation_runtime(&t, &clips).playing);
}

#[test]
fn rings_are_summed_up() {
    let ring = |peak_depth: usize, bytes: u64| RingStats {
        peak_depth,
        fallbacks: 1,
        ring_bytes: bytes,
        fallback_bytes: 1,
        direct_bytes: 2,
        resizes: 5,
    };
    let t = ring_totals(&vec![ring(2, 10), ring(4, 20), ring(3, 30)]);
    assert_eq!((t.peak_depth, t.fallbacks, t.bytes, t.resizes), (4, 3, 69, 15));
}

#[test]
fn scene_is_split_from_the_assets() {
    assert!(split_bundle(&vec![file("a.bin", 1)]).is_none());
    let files = vec![file("a.bin", 1), file("scene.toml", 2), file("b.bin", 3), file("a.bin", 4)];
    let b = split_bundle(&files).unwrap();
    assert_eq!(b.scene.to_vec(), vec![2]);
    assert_eq!(b.assets.get("a.bin").unwrap().to_vec(), vec![4], "the last one counts");
    assert_eq!(b.assets.get("b.bin").unwrap().to_vec(), vec![3]);
    assert!(b.assets.get("scene.toml").is_none());
}

#[test]
fn reloaded_project_is_saved_and_has_no_past() {
    let mut c = EditorController::new(Workspace::new(ValidKeys {
        includes: Vec::new(),
        inputs: Vec::new(),
    }));
    let spec = InsertSpec::Primitive(PrimitiveShape::Plane { width: n(1.0), depth: n(1.0) });
    assert!(c.dispatch(EditorCommand::Insert { id: NodeId(1), spec, parent: None }, &bare).is_ok());
    let add = ClipCommand::AddClip { id: AssetId(2), name: None };
    assert!(c.dispatch(EditorCommand::Clip(add), &bare).is_ok());
    c.work.store.assets.insert(5, AssetEntry::new(AssetSource::Filename("x".to_string())));
    assert!(c.can_undo());
    let sky = EnvironmentConfig {
        skybox: EnvSlot::Ktx { asset_id: AssetId(8) },
        specular: EnvSlot::BuiltInDefault,
        irradiance: EnvSlot::BuiltInDefault,
        probe: false,
    };
    let before = c.work.scene_revision;
    c.empty_for_bundle(sky);
    assert_eq!(c.work.scene_revision, before + 1);
    assert!(c.work.nodes.is_empty() && c.work.timeline.clips.is_empty());
    assert!(c.work.store.assets.get(5).is_none());
    assert_eq!(c.work.world.environment, sky);
    assert_eq!(c.work.project_name, "round-trip.awsm");
    assert!(!c.can_undo() && !c.work.dirty);
    assert!(!c.snapshot().project.env_unsaved);
}

#[test]
fn caches_are_dropped() {
    let mut w = Workspace::new(ValidKeys { includes: Vec::new(), inputs: Vec::new() });
    let refill = |w: &mut Workspace| {
        w.skins.insert(1, SkinStream { sets: 1, bytes: List::empty() });
        w.store.geometry.insert(1, bare(&ModifierStack::bare_capture(AssetId(1)), &VertexOverrides::none(), &Table::new()));
    };
    refill(&mut w);
    w.drop_caches(false);
    assert!(w.skins.get(1).is_none());
    assert!(w.store.geometry.get(1).is_some());
    refill(&mut w);
    w.drop_caches(true);
    assert!(w.store.geometry.get(1).is_none());
}

#[test]
fn round_trip_is_judged() {
    let good = judge_roundtrip(true, true);
    assert!(good.lossless);
    assert_eq!(roundtrip_text(good), "Verify round-trip: LOSSLESS (census identical)");
    let bad = judge_roundtrip(true, false);
    assert!(!bad.lossless);
    assert!(roundtrip_text(bad).contains("MISMATCH"));
}

#[test]
fn registration_is_told() {
    assert_eq!(registered_text("Lava", false), "Registered \u{201c}Lava\u{201d}.");
    assert_eq!(
        registered_text("Lava", true),
        "Recompiled \u{201c}Lava\u{201d} \u{2014} bucket refreshed."
    );
}

fn row_of(doc: ReadingDoc) -> Vec<Leaf> {
    match doc {
        ReadingDoc::Row(row) => row,
        _ => panic!("a row"),
    }
}

fn uniform(value: UniformValue) -> ReadingDoc {
    reading_doc(&Some(Reading::Uniform(SlotState { value, whole: List::empty() })))
}

#[test]
fn readings_are_written_out() {
    let real = |x: f32| Leaf::Real(n(x));
    assert!(matches!(reading_doc(&None), ReadingDoc::Null));
    match reading_doc(&Some(Reading::Number(n(2.5)))) {
        ReadingDoc::One(x) => assert_eq!(x, real(2.5)),
        _ => panic!("a number"),
    }
    let red = Vec3 { x: n(1.0), y: n(0.5), z: n(0.25) };
    assert_eq!(
        row_of(reading_doc(&Some(Reading::Color(red)))),
        vec![real(1.0), real(0.5), real(0.25)]
    );
    let cells: Vec<F32> = (0..16).map(|i| n(i as f32)).collect();
    let matrix = row_of(reading_doc(&Some(Reading::Matrix(List::from_vec(cells)))));
    assert_eq!(matrix.len(), 16);
    assert_eq!(matrix[15], real(15.0));
    match reading_doc(&Some(Reading::Pose(place(7.0)))) {
        ReadingDoc::Named(rows) => {
            let keys: Vec<&str> = rows.iter().map(|r| r.key).collect();
            assert_eq!(keys, vec!["translation", "rotation", "scale"]);
            assert_eq!(rows[0].row, vec![real(7.0), real(0.0), real(0.0)]);
            assert_eq!(rows[1].row, vec![real(0.0), real(0.0), real(0.0), real(1.0)]);
            assert_eq!(rows[2].row, vec![real(1.0), real(1.0), real(1.0)]);
        }
        _ => panic!("a pose"),
    }
}

#[test]
fn uniforms_are_written_out_by_their_types() {
    assert!(matches!(uniform(UniformValue::U32(7)), ReadingDoc::One(Leaf::Whole(7))));
    assert!(matches!(uniform(UniformValue::Bool(true)), ReadingDoc::One(Leaf::Truth(true))));
    assert_eq!(
        row_of(uniform(UniformValue::IVec3(-1, 0, 5))),
        vec![Leaf::Whole(-1), Leaf::Whole(0), Leaf::Whole(5)]
    );
    let v = Vec3 { x: n(1.0), y: n(2.0), z: n(3.0) };
    assert_eq!(row_of(uniform(UniformValue::Vec3(v))), row_of(uniform(UniformValue::Color3(v))));
}

#[test]
fn a_node_without_a_mesh_cannot_be_measured() {
    let mut c = EditorController::new(Workspace::new(ValidKeys {
        includes: Vec::new(),
        inputs: Vec::new(),
    }));
    let spec = InsertSpec::Primitive(PrimitiveShape::Sphere {
        radius: n(1.0),
        segments_long: 8,
        segments_lat: 6,
    });
    let cmd = EditorCommand::Insert { id: NodeId(5), spec, parent: None };
    assert!(c.dispatch(cmd, &bare).is_ok());
    assert!(measured_mesh(&c.work.nodes, &c.work.store, NodeId(5)).is_ok());
    match measured_mesh(&c.work.nodes, &c.work.store, NodeId(6)) {
        Err(QueryError::NoMesh(id)) => assert_eq!(id, NodeId(6)),
        _ => panic!("no mesh"),
    }
}
