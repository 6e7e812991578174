//! Questions about a project.
use scene_editor::assets::{
    AssetEntry, AssetSource, MeshBase, MeshData, ModifierStack, PrimitiveShape, TextureDef,
    VertexOverrides,
};
use scene_editor::clips::{TextureTransformProp, TrackTarget, TransformProp};
use scene_editor::command::EditorCommand;
use scene_editor::controller::EditorController;
use scene_editor::errors::EditorError;
use scene_editor::ids::{AssetId, NodeId, VariantId};
use scene_editor::library_edit::{LibraryCommand, ValidKeys};
use scene_editor::list::{List, Same};
use scene_editor::material::MaterialShading;
use scene_editor::mesh_edit::{MeshCommand, Pick};
use scene_editor::mesh_query::{
    select_vertices_by_predicate, ReportStyle, Selector, VertexPredicate,
};
use scene_editor::node::{
    LodSettings, NodeKind, ShadowFlags, SkinJoint, SkinnedMeshRef,
};
use scene_editor::node_edit::{NodeCommand, NodeEdit};
use scene_editor::palette::{BuiltinTextureSlot, Palette};
use scene_editor::paging::page_of;
use scene_editor::query::{begin_sampling, end_sampling, Answer, EditorQuery};
use scene_editor::query_errors::QueryError;
use scene_editor::scene_edit::{node_editable_mesh, InsertSpec, NodeMeshCommand};
use scene_editor::scene_query::{MaterialOrigin, NodeMaterial};
use scene_editor::session::EditorMode;
use scene_editor::skin::{Influence, SkinStream, SkinWeightEntry};
use scene_editor::snapshot::{target_text, EnvSlotKind};
use scene_editor::table::Table;
use scene_editor::timeline::{ClipCommand, TrackCommand};
use scene_editor::values::{Trs, Vec2, Vec3, Vec4, F32, F64};
use scene_editor::workspace::Workspace;
use scene_editor::world::{EnvSlot, EnvironmentPatch, WorldCommand};

const MESH: NodeId = NodeId(10);
const CLIP: AssetId = AssetId(100);

fn n(x: f32) -> F32 {
    F32 { bits: x.to_bits() }
}

fn v3(x: f32, y: f32, z: f32) -> Vec3 {
    Vec3 { x: n(x), y: n(y), z: n(z) }
}

fn v2(x: f32, y: f32) -> Vec2 {
    Vec2 { x: n(x), y: n(y) }
}

/// Two triangles that share an edge.
fn quad() -> MeshData {
    MeshData {
        positions: List::from_vec(vec![
            v3(0.0, 0.0, 0.0),
            v3(2.0, 0.0, 0.0),
            v3(2.0, 1.0, 0.0),
            v3(0.0, 1.0, -3.0),
        ]),
        normals: None,
        uvs: List::from_vec(vec![v2(0.0, 0.0), v2(1.0, 0.0), v2(1.0, 1.0), v2(0.0, 1.0)]),
        uvs1: None,
        colors: None,
        tangents: None,
        indices: List::from_vec(vec![0, 1, 2, 0, 2, 3]),
    }
}

fn bake(stack: &ModifierStack, ov: &VertexOverrides, geometry: &Table<MeshData>) -> MeshData {
    let mut m = match &stack.base {
        MeshBase::Captured(id) => match geometry.get(id.0) {
            Some(g) => g.same(),
            None => quad(),
        },
        _ => quad(),
    };
    let mut p = m.positions.to_vec();
    for (i, q) in p.iter_mut().enumerate() {
        if let Some(moved) = ov.positions.get(i as u32) {
            *q = moved;
        }
    }
    m.positions = List::from_vec(p);
    m
}

fn run(c: &mut EditorController, cmd: EditorCommand) {
    if let Err(e) = c.dispatch(cmd, &bake) {
        panic!("{}", e.message());
    }
}

fn refused(c: &mut EditorController, cmd: EditorCommand) -> EditorError {
    match c.dispatch(cmd, &bake) {
        Ok(()) => panic!("refused"),
        Err(e) => e,
    }
}

fn error(c: &mut EditorController, q: EditorQuery) -> QueryError {
    match c.query(q) {
        Answer::Error(e) => e,
        _ => panic!("an error"),
    }
}

/// A group with a mesh in it, a material, a clip.
fn project() -> EditorController {
    let mut c = EditorController::new(Workspace::new(ValidKeys {
        includes: Vec::new(),
        inputs: Vec::new(),
    }));
    run(&mut c, EditorCommand::Insert { id: NodeId(1), spec: InsertSpec::Empty, parent: None });
    run(
        &mut c,
        EditorCommand::Insert {
            id: MESH,
            spec: InsertSpec::Primitive(PrimitiveShape::Plane { width: n(1.0), depth: n(1.0) }),
            parent: Some(NodeId(1)),
        },
    );
    run(
        &mut c,
        EditorCommand::Library(LibraryCommand::AddCustomMaterial { id: AssetId(50) }),
    );
    run(&mut c, EditorCommand::Clip(ClipCommand::AddClip { id: CLIP, name: None }));
    run(
        &mut c,
        EditorCommand::Track(TrackCommand::AddTrack {
            clip: CLIP,
            target: TrackTarget::Transform { node: NodeId(1), prop: TransformProp::Scale },
        }),
    );
    c
}

fn skinned(id: u128, mesh_index: u32, joints: Vec<SkinJoint>) -> EditorCommand {
    EditorCommand::Node(NodeCommand {
        node: NodeId(id),
        edit: NodeEdit::SetKind(NodeKind::SkinnedMesh {
            skin: SkinnedMeshRef {
                source: AssetId(900),
                node_index: mesh_index,
                rig_node_index: mesh_index,
                primitive_index: None,
                joints: List::from_vec(joints),
            },
            palette: Palette::empty(),
            shadow: ShadowFlags::standard(),
            lod: LodSettings::standard(),
        }),
    })
}

fn all() -> ReportStyle {
    ReportStyle { store: false, count_only: false, offset: None, limit: None }
}

#[test]
fn snapshot_shows_the_project() {
    let mut c = project();
    let s = c.snapshot();
    assert_eq!(s.mode, EditorMode::Scene);
    assert_eq!(s.scene_tree.len(), 1);
    assert_eq!(s.scene_tree[0].brief.kind, "Group");
    assert_eq!(s.scene_tree[0].children[0].brief.id, MESH);
    assert_eq!(s.scene_tree[0].children[0].brief.kind, "Mesh");
    assert_eq!(s.materials.len(), 1);
    assert_eq!(s.materials[0].name, "New Material 1");
    assert!(!s.materials[0].builtin && s.materials[0].compile_ok);
    assert_eq!(s.animation.clips[0].tracks[0].target, "transform:scale");
    assert_eq!(
        s.animation.current_clip.as_deref(),
        Some("00000000-0000-0000-0000-000000000064")
    );
    assert!(s.project.dirty && !s.project.env_unsaved);
    assert_eq!(s.project.coordinate_system, "right-handed, Y-up, -Z forward");
    assert_eq!((s.undo_depth, s.redo_depth), (3, 0));
    c.undo(&bake);
    c.undo(&bake);
    let s = c.snapshot();
    assert_eq!((s.undo_depth, s.redo_depth), (1, 2));
    assert!(s.scene_tree[0].children.is_empty());
}

#[test]
fn snapshot_lists_textures_and_surroundings() {
    let mut c = project();
    c.work.store.assets.insert(
        70,
        AssetEntry::new(AssetSource::Texture(TextureDef::Raster {
            display_name: "wood.png".to_string(),
            color_kind: None,
        })),
    );
    c.work.store.assets.insert(71, AssetEntry::new(AssetSource::Filename("sky.ktx2".to_string())));
    run(
        &mut c,
        EditorCommand::World(WorldCommand::PatchEnvironment(EnvironmentPatch {
            skybox: Some(EnvSlot::Ktx { asset_id: AssetId(71) }),
            specular: None,
            irradiance: Some(EnvSlot::SkyGradient { zenith: Vec3::one(), nadir: Vec3::zero() }),
            probe: None,
        })),
    );
    let s = c.snapshot();
    assert_eq!(s.textures.len(), 1);
    assert_eq!((s.textures[0].name.as_str(), s.textures[0].kind), ("wood.png", "raster"));
    assert!(s.project.env_unsaved);
    let sky = &s.project.environment.skybox;
    assert_eq!(sky.kind, EnvSlotKind::Ktx);
    assert_eq!(sky.asset_id.as_deref(), Some("00000000-0000-0000-0000-000000000047"));
    assert_eq!(sky.label.as_deref(), Some("sky.ktx2"));
    assert_eq!(s.project.environment.specular.kind, EnvSlotKind::BuiltIn);
    assert_eq!(s.project.environment.irradiance.gradient, Some((Vec3::one(), Vec3::zero())));
    c.undo(&bake);
    assert!(!c.snapshot().project.env_unsaved);
}

#[test]
fn targets_are_told_in_lower_case() {
    assert_eq!(
        target_text(&TrackTarget::Uniform {
            material: AssetId(1),
            name: "HeatMap\u{c9}".to_string(),
        }),
        "uniform:heatmap\u{e9}"
    );
    assert_eq!(
        target_text(&TrackTarget::TextureTransform {
            node: NodeId(1),
            slot: BuiltinTextureSlot::MetallicRoughness,
            prop: TextureTransformProp::Offset,
        }),
        "texuv:metallicroughness:offset"
    );
    assert_eq!(target_text(&TrackTarget::Morph { node: NodeId(1), index: 7 }), "morph:7");
}

#[test]
fn material_of_a_node_is_told() {
    let mut c = project();
    match c.query(EditorQuery::ResolveNodeMaterial { node: MESH }) {
        Answer::Material(NodeMaterial::Unassigned { kind }) => assert_eq!(kind, "unassigned"),
        _ => panic!("unassigned"),
    }
    run(
        &mut c,
        EditorCommand::Library(LibraryCommand::AddBuiltinMaterial {
            id: AssetId(51),
            shading: MaterialShading::Unlit,
        }),
    );
    for (material, variant) in [(AssetId(50), VariantId(1)), (AssetId(51), VariantId(2))] {
        run(
            &mut c,
            EditorCommand::Node(NodeCommand {
                node: MESH,
                edit: NodeEdit::AddMaterialVariant { material, id: variant, given: None },
            }),
        );
    }
    let select = |v: u128| {
        EditorCommand::Node(NodeCommand {
            node: MESH,
            edit: NodeEdit::SelectMaterialVariant(Some(VariantId(v))),
        })
    };
    run(&mut c, select(1));
    match c.query(EditorQuery::ResolveNodeMaterial { node: MESH }) {
        Answer::Material(NodeMaterial::Assigned { asset, origin, .. }) => {
            assert_eq!(asset, AssetId(50));
            assert!(matches!(origin, MaterialOrigin::Custom { .. }));
        }
        _ => panic!("assigned"),
    }
    run(&mut c, select(2));
    match c.query(EditorQuery::ResolveNodeMaterial { node: MESH }) {
        Answer::Material(NodeMaterial::Assigned { base_color, origin, .. }) => {
            assert_eq!(base_color, Vec4::white());
            assert!(matches!(
                origin,
                MaterialOrigin::Builtin { shading: MaterialShading::Unlit, .. }
            ));
        }
        _ => panic!("assigned"),
    }
    assert_eq!(
        error(&mut c, EditorQuery::ResolveNodeMaterial { node: NodeId(77) }).message(),
        "no node 00000000-0000-0000-0000-00000000004d"
    );
}

#[test]
fn materials_are_asked_about() {
    let mut c = project();
    run(
        &mut c,
        EditorCommand::Library(LibraryCommand::SetCustomMaterialWgsl {
            id: AssetId(50),
            wgsl: "fn f() {}".to_string(),
        }),
    );
    match c.query(EditorQuery::CustomMaterialWgsl { material: AssetId(50) }) {
        Answer::Text(s) => assert_eq!(s, "fn f() {}"),
        _ => panic!("a text"),
    }
    match c.query(EditorQuery::MaterialDiagnostics { material: AssetId(50) }) {
        Answer::Diagnostics(d) => assert!(!d.registered && d.ok && d.errors.is_empty()),
        _ => panic!("diagnostics"),
    }
    assert_eq!(
        error(&mut c, EditorQuery::CustomMaterialWgsl { material: AssetId(1) }).message(),
        "no custom material 00000000-0000-0000-0000-000000000001"
    );
}

#[test]
fn tree_is_asked_about() {
    let mut c = project();
    match c.query(EditorQuery::GetChildren { node: NodeId(1) }) {
        Answer::Children(row) => assert_eq!(row[0].id, MESH),
        _ => panic!("children"),
    }
    match c.query(EditorQuery::GetSubtree { root: None }) {
        Answer::Subtree(row) => assert_eq!(row[0].children.len(), 1),
        _ => panic!("a tree"),
    }
    match c.query(EditorQuery::NodeTransforms { nodes: List::empty() }) {
        Answer::Transforms(row) => {
            assert_eq!(row.len(), 2);
            assert_eq!(row[1].node, MESH);
        }
        _ => panic!("transforms"),
    }
    match c.query(EditorQuery::NodeKindDetails { nodes: List::from_vec(vec![NodeId(1)]) }) {
        Answer::Kinds(row) => assert!(matches!(row[0].kind, NodeKind::Group)),
        _ => panic!("kinds"),
    }
    assert_eq!(
        error(&mut c, EditorQuery::GetChildren { node: NodeId(2) }),
        QueryError::NoNode(NodeId(2))
    );
}

#[test]
fn vertices_are_selected_and_read() {
    let mut c = project();
    let ask = |style: ReportStyle| EditorQuery::SelectVerticesWhere {
        node: MESH,
        found: List::from_vec(vec![1, 2, 3]),
        style,
    };
    match c.query(ask(ReportStyle { offset: Some(1), limit: Some(1), ..all() })) {
        Answer::Selection(r) => {
            assert_eq!(r.count, 3);
            let page = r.page.unwrap();
            assert_eq!((page.offset, page.indices), (1, vec![2]));
        }
        _ => panic!("a selection"),
    }
    match c.query(ask(ReportStyle { count_only: true, ..all() })) {
        Answer::Selection(r) => assert!(r.count == 3 && r.page.is_none() && r.id.is_none()),
        _ => panic!("a selection"),
    }
    let id = match c.query(ask(ReportStyle { store: true, ..all() })) {
        Answer::Selection(r) => r.id.unwrap(),
        _ => panic!("a selection"),
    };
    assert_eq!(id, 1);
    match c.query(EditorQuery::GetVertexData {
        node: MESH,
        indices: List::empty(),
        selection: Some(id),
        offset: None,
        limit: Some(2),
        include_source: false,
    }) {
        Answer::Vertices(r) => {
            assert_eq!((r.vertex_count, r.selected, r.vertices.len()), (4, 3, 2));
            assert_eq!(r.vertices[0].position, Some(v3(2.0, 0.0, 0.0)));
            assert_eq!(r.vertices[0].uv, Some(v2(1.0, 0.0)));
            assert_eq!(r.vertices[0].normal, None);
        }
        _ => panic!("vertices"),
    }
    let e = error(
        &mut c,
        EditorQuery::GetVertexData {
            node: MESH,
            indices: List::empty(),
            selection: Some(9),
            offset: None,
            limit: None,
            include_source: false,
        },
    );
    assert_eq!(e.message(), "no vertex-selection handle 9");
    match c.query(EditorQuery::StripParameterize {
        node: MESH,
        selection: None,
        indices: List::from_vec(vec![2, 9, 0]),
    }) {
        Answer::Band(row) => assert_eq!(row, vec![2, 0]),
        _ => panic!("a band"),
    }
}

#[test]
fn meshes_are_asked_about() {
    let mut c = project();
    let mesh = AssetId(MESH.0);
    match c.query(EditorQuery::GetMeshData { node: MESH, offset: Some(1), limit: None }) {
        Answer::Triangles(r) => {
            assert_eq!((r.vertex_count, r.triangle_count, r.triangles.len()), (4, 2, 1));
            assert_eq!((r.triangles[0].a, r.triangles[0].b, r.triangles[0].c), (0, 2, 3));
            let b = r.bbox.unwrap();
            assert_eq!((b.min, b.max), (v3(0.0, 0.0, -3.0), v3(2.0, 1.0, 0.0)));
        }
        _ => panic!("triangles"),
    }
    match c.query(EditorQuery::UvLayout { node: MESH, uv_set: None, offset: None, limit: None }) {
        Answer::Layout(Some(r)) => {
            assert_eq!(r.edge_count, 5, "the shared edge comes once");
            assert_eq!(r.lines.len(), 5);
            assert_eq!((r.lines[0].a, r.lines[0].b), (v2(0.0, 0.0), v2(1.0, 0.0)));
        }
        _ => panic!("a layout"),
    }
    let second = EditorQuery::UvLayout { node: MESH, uv_set: Some(1), offset: None, limit: None };
    assert!(matches!(c.query(second), Answer::Layout(None)));
    match c.query(EditorQuery::MeshModifiers { mesh }) {
        Answer::Modifiers(s) => assert!(s.modifiers.is_empty()),
        _ => panic!("a recipe"),
    }
    assert_eq!(
        error(&mut c, EditorQuery::MeshModifiers { mesh: AssetId(3) }).message(),
        "no asset 00000000-0000-0000-0000-000000000003"
    );
    c.work.store.assets.insert(3, AssetEntry::new(AssetSource::Filename("a".to_string())));
    assert_eq!(
        error(&mut c, EditorQuery::MeshModifiers { mesh: AssetId(3) }),
        QueryError::NotAMeshAsset(AssetId(3))
    );
    run(
        &mut c,
        EditorCommand::Mesh(MeshCommand::SetVertexPositions {
            mesh,
            pick: Pick { selection: None, indices: List::from_vec(vec![1]) },
            positions: List::from_vec(vec![v3(5.0, 5.0, 5.0)]),
        }),
    );
    match c.query(EditorQuery::GetMeshLayers { node: MESH }) {
        Answer::Layers(l) => {
            assert_eq!(l.base, "captured");
            assert!(l.frozen_topology && l.has_overrides);
            assert_eq!((l.positions, l.colors), (1, 0));
        }
        _ => panic!("layers"),
    }
    match c.query(EditorQuery::GetVertexData {
        node: MESH,
        indices: List::from_vec(vec![0, 1]),
        selection: None,
        offset: None,
        limit: None,
        include_source: true,
    }) {
        Answer::Vertices(r) => {
            assert!(!r.vertices[0].source.unwrap().position);
            assert!(r.vertices[1].source.unwrap().position);
            assert_eq!(r.vertices[1].position, Some(v3(5.0, 5.0, 5.0)));
        }
        _ => panic!("vertices"),
    }
    assert_eq!(
        error(&mut c, EditorQuery::GetMeshLayers { node: NodeId(1) }),
        QueryError::NoMeshAsset(NodeId(1))
    );
    assert_eq!(
        error(&mut c, EditorQuery::GetMeshData { node: NodeId(1), offset: None, limit: None })
            .message(),
        "node 00000000-0000-0000-0000-000000000001 has no resolvable mesh"
    );
}

#[test]
fn skins_are_told_once() {
    let mut c = project();
    for id in [20, 21] {
        run(
            &mut c,
            EditorCommand::Insert { id: NodeId(id), spec: InsertSpec::Empty, parent: None },
        );
        run(&mut c, skinned(id, 4, vec![SkinJoint { node: NodeId(1), index: 6 }]));
    }
    let mut live: Table<bool> = Table::new();
    live.insert(1, true);
    match c.query(EditorQuery::SkinData { nodes: List::empty(), live }) {
        Answer::Skins(row) => {
            assert_eq!(row.len(), 1, "two meshes of one skin");
            assert_eq!(row[0].source, AssetId(900));
            assert_eq!(row[0].meshes.len(), 2);
            assert_eq!(row[0].joints.len(), 1);
            assert_eq!((row[0].joints[0].node, row[0].joints[0].index), (NodeId(1), 6));
            assert!(row[0].joints[0].live);
        }
        _ => panic!("skins"),
    }
    assert_eq!(
        error(&mut c, EditorQuery::GetMeshData { node: NodeId(20), offset: None, limit: None })
            .message(),
        "node 00000000-0000-0000-0000-000000000014 is skinned; call drop_skinning first"
    );
    assert!(matches!(
        node_editable_mesh(&c.work.nodes, &c.work.store, NodeId(20)),
        Err(EditorError::SkinnedNode(NodeId(20)))
    ));
}

#[test]
fn skin_weights_are_restored() {
    let mut s = SkinStream { sets: 1, bytes: List::from_vec(vec![0u8; 64]) };
    assert_eq!(s.vertices(), 2);
    let none = Influence { joint: 0, weight: n(0.0) };
    let e = SkinWeightEntry {
        vertex: 1,
        a: Influence { joint: 3, weight: n(0.75) },
        b: Influence { joint: 0x0102_0304, weight: n(0.25) },
        c: none,
        d: none,
    };
    let before = s.set_weights(&List::from_vec(vec![e, SkinWeightEntry { vertex: 9, ..e }]));
    assert_eq!(s.entry(1), Some(e));
    assert_eq!(s.bytes.to_vec()[32], 3);
    assert_eq!(&s.bytes.to_vec()[40..44], &[4, 3, 2, 1]);
    assert_eq!(before.len(), 1);
    s.set_weights(&before);
    assert_eq!(s.bytes.to_vec(), vec![0u8; 64]);
    assert_eq!(s.entry(2), None);
}

#[test]
fn weights_of_a_node_are_read() {
    let mut c = project();
    let e = error(
        &mut c,
        EditorQuery::GetSkinWeights { node: MESH, indices: List::empty() },
    );
    assert_eq!(
        e.message(),
        "node 00000000-0000-0000-0000-00000000000a has no materialized skin"
    );
    c.work.skins.insert(MESH.0, SkinStream { sets: 1, bytes: List::from_vec(vec![0u8; 64]) });
    match c.query(EditorQuery::GetSkinWeights { node: MESH, indices: List::empty() }) {
        Answer::Weights(w) => {
            assert_eq!((w.vertex_count, w.set_count, w.weights.len()), (2, 1, 2));
        }
        _ => panic!("weights"),
    }
}

#[test]
fn tracks_and_options_are_asked_about() {
    let mut c = project();
    match c.query(EditorQuery::GetTrackData { clip: CLIP, track: 0 }) {
        Answer::Track(t) => assert!(t.keys.is_empty()),
        _ => panic!("a track"),
    }
    assert_eq!(
        error(&mut c, EditorQuery::GetTrackData { clip: CLIP, track: 4 }).message(),
        "no track 4 in clip 00000000-0000-0000-0000-000000000064"
    );
    match c.query(EditorQuery::ViewOptions) {
        Answer::Options(o) => assert!(o.follow_agent),
        _ => panic!("options"),
    }
}

#[test]
fn question_changes_no_project() {
    let mut c = project();
    let (undo, dirty) = (c.snapshot().undo_depth, c.work.dirty);
    let _ = c.query(EditorQuery::Snapshot);
    let _ = c.query(EditorQuery::GetSubtree { root: None });
    assert_eq!((c.snapshot().undo_depth, c.work.dirty), (undo, dirty));
}

#[test]
fn sampling_leaves_no_trace() {
    let mut c = project();
    let t = &mut c.work.timeline;
    t.playing = true;
    t.playhead = F64 { bits: 3.0f64.to_bits() };
    let was = begin_sampling(t);
    assert!(!t.playing);
    t.playhead = F64::zero();
    end_sampling(t, was);
    assert!(t.playing);
    assert_eq!(t.playhead, F64 { bits: 3.0f64.to_bits() });
}

#[test]
fn pages_cover_the_row() {
    let row = List::from_vec(vec![5u32, 6, 7, 8]);
    assert_eq!(page_of(&row, Some(1), Some(2)), vec![6, 7]);
    assert_eq!(page_of(&row, Some(3), Some(9)), vec![8]);
    assert_eq!(page_of(&row, Some(9), None), Vec::<u32>::new());
    assert_eq!(page_of(&row, None, None), vec![5, 6, 7, 8]);
}

#[test]
fn mesh_edits_are_refused() {
    let mut c = project();
    let mesh = AssetId(MESH.0);
    let data = |d: MeshData, allow_empty: bool| {
        EditorCommand::Mesh(MeshCommand::SetMeshData { mesh, data: d, allow_empty })
    };
    let empty = MeshData { positions: List::empty(), indices: List::empty(), ..quad() };
    let e = refused(&mut c, data(empty.same(), false));
    assert_eq!(e.message(), "mesh data has no vertices");
    run(&mut c, data(empty, true));
    let e = refused(&mut c, data(MeshData { indices: List::from_vec(vec![0, 1]), ..quad() }, false));
    assert!(matches!(e, EditorError::BrokenMesh));
    let e =
        refused(&mut c, data(MeshData { indices: List::from_vec(vec![0, 1, 9]), ..quad() }, false));
    assert!(matches!(e, EditorError::BrokenMesh));
    let e = refused(
        &mut c,
        EditorCommand::Mesh(MeshCommand::RemoveModifier { mesh, index: 3 }),
    );
    assert_eq!(
        e.message(),
        "modifier index 3 out of range (mesh 00000000-0000-0000-0000-00000000000a has 0 modifier(s))"
    );
    let e = refused(
        &mut c,
        EditorCommand::Mesh(MeshCommand::PaintVertexColors {
            mesh: AssetId(3),
            pick: Pick { selection: None, indices: List::empty() },
            color: Vec4::white(),
        }),
    );
    assert_eq!(
        e.message(),
        "asset 00000000-0000-0000-0000-000000000003 is not an editable mesh"
    );
    let why = |c: &EditorController, node: NodeId| {
        match node_editable_mesh(&c.work.nodes, &c.work.store, node) {
            Ok(_) => panic!("refused"),
            Err(e) => e.message(),
        }
    };
    assert_eq!(
        why(&c, NodeId(99)),
        "node 00000000-0000-0000-0000-000000000063 not found"
    );
    assert_eq!(
        why(&c, NodeId(1)),
        "node 00000000-0000-0000-0000-000000000001 has no editable mesh (not a Mesh node)"
    );
    c.work.store.geometry.remove(mesh.0);
    assert!(why(&c, MESH).ends_with("has no resolvable mesh geometry"));
}

#[test]
fn painting_needs_a_mesh_and_vertices() {
    let mut c = project();
    let paint = |node: NodeId, indices: Vec<u32>| {
        EditorCommand::NodeMesh(NodeMeshCommand::PaintVerticesWhere {
            node,
            indices: List::from_vec(indices),
            color: Vec4::white(),
        })
    };
    let depth = c.snapshot().undo_depth;
    run(&mut c, paint(NodeId(1), vec![0]));
    run(&mut c, paint(MESH, Vec::new()));
    assert_eq!(c.snapshot().undo_depth, depth, "nothing was done");
    run(&mut c, paint(MESH, vec![2]));
    assert_eq!(c.snapshot().undo_depth, depth + 1);
    match c.query(EditorQuery::GetMeshLayers { node: MESH }) {
        Answer::Layers(l) => assert_eq!((l.positions, l.colors), (0, 1)),
        _ => panic!("layers"),
    }
}

#[test]
fn tree_edits_are_refused() {
    let mut c = project();
    let e = refused(
        &mut c,
        EditorCommand::Duplicate { id: NodeId(1), new_id: NodeId(60), fresh: Vec::new() },
    );
    assert_eq!(e.message(), "not enough new ids for the copied nodes");
    run(
        &mut c,
        EditorCommand::Duplicate {
            id: NodeId(1),
            new_id: NodeId(60),
            fresh: vec![NodeId(61)],
        },
    );
    assert_eq!(c.snapshot().scene_tree[1].children[0].brief.id, NodeId(61));
    let e = refused(&mut c, EditorCommand::ResetToBindPose { id: NodeId(5) });
    assert_eq!(e.message(), "no node 00000000-0000-0000-0000-000000000005");
    let pose = Trs { translation: v3(0.0, 4.0, 0.0), ..Trs::identity() };
    c.work.rest.insert(1, pose);
    run(&mut c, EditorCommand::ResetToBindPose { id: NodeId(1) });
    assert_eq!(c.work.nodes[0].data.transform, pose);
    c.undo(&bake);
    assert_eq!(c.work.nodes[0].data.transform, Trs::identity());
}

#[test]
fn predicates_choose_their_selector() {
    let bits = |x: f32| F32 { bits: x.to_bits() };
    let point = |x: f32| Vec3 { x: bits(x), y: bits(0.0), z: bits(0.0) };
    match select_vertices_by_predicate(VertexPredicate::AxisLess { axis: 2, value: bits(0.5) }) {
        Selector::ByAxis { axis, greater, value } => {
            assert_eq!((axis, greater, value), (2, false, bits(0.5)));
        }
        _ => panic!("another selector"),
    }
    match select_vertices_by_predicate(VertexPredicate::AxisGreater { axis: 1, value: bits(2.0) })
    {
        Selector::ByAxis { axis, greater, value } => {
            assert_eq!((axis, greater, value), (1, true, bits(2.0)));
        }
        _ => panic!("another selector"),
    }
    match select_vertices_by_predicate(VertexPredicate::TopCount { axis: 0, count: 7 }) {
        Selector::TopCountAxis { axis, count } => assert_eq!((axis, count), (0, 7)),
        _ => panic!("another selector"),
    }
    match select_vertices_by_predicate(VertexPredicate::WithinRadius {
        center: point(1.0),
        radius: bits(3.0),
    }) {
        Selector::WithinRadius { center, radius } => {
            assert_eq!((center, radius), (point(1.0), bits(3.0)));
        }
        _ => panic!("another selector"),
    }
    match select_vertices_by_predicate(VertexPredicate::WithinAabb {
        min: point(-1.0),
        max: point(1.0),
    }) {
        Selector::WithinAabb { min, max } => assert_eq!((min, max), (point(-1.0), point(1.0))),
        _ => panic!("another selector"),
    }
    match select_vertices_by_predicate(VertexPredicate::ConnectedToSeed {
        seed: List::from_vec(vec![4, 2]),
    }) {
        Selector::ConnectedComponentOf { seed } => assert_eq!(seed.to_vec(), vec![4, 2]),
        _ => panic!("another selector"),
    }
}

#[test]
fn a_fraction_outside_its_range_is_told() {
    let cases = [
        (0.0f32, false),
        (-0.0, false),
        (0.25, false),
        (1.0, false),
        (1.0001, true),
        (25.0, true),
        (-0.1, true),
        (f32::INFINITY, true),
        (f32::NAN, true),
    ];
    for (x, told) in cases {
        let percent = F32 { bits: x.to_bits() };
        match select_vertices_by_predicate(VertexPredicate::TopPercent { axis: 1, percent }) {
            Selector::TopPercentAxis { axis, percent: p, clamps } => {
                assert_eq!((axis, p, clamps), (1, percent, told), "{x}");
            }
            _ => panic!("another selector"),
        }
    }
}
