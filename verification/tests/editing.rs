//! Edits of a project, and taking them back.
use scene_editor::assets::{
    AssetEntry, AssetSource, MeshBase, MeshData, MeshDef, Modifier, ModifierKind, ModifierStack,
    PrimitiveShape, VertexOverrides,
};
use scene_editor::command::EditorCommand;
use scene_editor::controller::EditorController;
use scene_editor::errors::EditorError;
use scene_editor::ids::{captured_snapshot_id, AssetId, NodeId};
use scene_editor::library_edit::{LibraryCommand, ValidKeys};
use scene_editor::list::{List, Same};
use scene_editor::mesh_edit::{MeshCommand, Pick};
use scene_editor::node::{unassigned_material_kind, InstancerDef, LodSettings, NodeKind, ShadowFlags};
use scene_editor::node_edit::{NodeCommand, NodeEdit};
use scene_editor::palette::Palette;
use scene_editor::scene_edit::{InsertSpec, Split};
use scene_editor::table::Table;
use scene_editor::timeline::ClipCommand;
use scene_editor::tree::find_by_id;
use scene_editor::values::{Trs, Vec3, Vec4, F32};
use scene_editor::workspace::Workspace;

fn n(x: f32) -> F32 {
    F32 { bits: x.to_bits() }
}

fn x(v: F32) -> f32 {
    f32::from_bits(v.bits)
}

fn v3(p: [f32; 3]) -> Vec3 {
    Vec3 { x: n(p[0]), y: n(p[1]), z: n(p[2]) }
}

fn arr(v: &Vec3) -> [f32; 3] {
    [x(v.x), x(v.y), x(v.z)]
}

fn trs(t: [f32; 3]) -> Trs {
    Trs { translation: v3(t), ..Trs::identity() }
}

fn mesh_of(positions: Vec<[f32; 3]>, indices: Vec<u32>) -> MeshData {
    MeshData {
        positions: List::from_vec(positions.into_iter().map(v3).collect()),
        normals: None,
        uvs: List::empty(),
        uvs1: None,
        colors: None,
        tangents: None,
        indices: List::from_vec(indices),
    }
}

fn sphere_mesh(radius: f32, long: u32, lat: u32) -> MeshData {
    let mut p: Vec<[f32; 3]> = Vec::new();
    let mut t: Vec<u32> = Vec::new();
    for i in 0..=lat {
        let a = std::f32::consts::PI * i as f32 / lat as f32;
        for j in 0..=long {
            let b = std::f32::consts::TAU * j as f32 / long as f32;
            p.push([radius * a.sin() * b.cos(), radius * a.cos(), radius * a.sin() * b.sin()]);
        }
    }
    let row = long + 1;
    for i in 0..lat {
        for j in 0..long {
            let q = i * row + j;
            t.extend_from_slice(&[q, q + row, q + 1, q + 1, q + row, q + row + 1]);
        }
    }
    mesh_of(p, t)
}

fn subdivided(m: &MeshData) -> MeshData {
    let mut p: Vec<[f32; 3]> = m.positions.to_vec().iter().map(arr).collect();
    let mut t: Vec<u32> = Vec::new();
    let idx = m.indices.to_vec();
    for c in idx.chunks_exact(3) {
        let mut mid = |a: u32, b: u32| -> u32 {
            let (pa, pb) = (p[a as usize], p[b as usize]);
            p.push([
                (pa[0] + pb[0]) / 2.0,
                (pa[1] + pb[1]) / 2.0,
                (pa[2] + pb[2]) / 2.0,
            ]);
            (p.len() - 1) as u32
        };
        let (ab, bc, ca) = (mid(c[0], c[1]), mid(c[1], c[2]), mid(c[2], c[0]));
        t.extend_from_slice(&[c[0], ab, ca, ab, c[1], bc, ca, bc, c[2], ab, bc, ca]);
    }
    mesh_of(p, t)
}

fn bake(stack: &ModifierStack, ov: &VertexOverrides, geometry: &Table<MeshData>) -> MeshData {
    let mut m = match &stack.base {
        MeshBase::Primitive(PrimitiveShape::Sphere { radius, segments_long, segments_lat }) => {
            sphere_mesh(x(*radius), *segments_long, *segments_lat)
        }
        MeshBase::Captured(id) => match geometry.get(id.0) {
            Some(g) => g.same(),
            None => mesh_of(Vec::new(), Vec::new()),
        },
        _ => mesh_of(Vec::new(), Vec::new()),
    };
    for step in stack.modifiers.to_vec() {
        if step.kind == ModifierKind::Subdivide {
            for _ in 0..step.iterations {
                m = subdivided(&m);
            }
        }
    }
    let mut p = m.positions.to_vec();
    for (i, q) in p.iter_mut().enumerate() {
        if let Some(moved) = ov.positions.get(i as u32) {
            *q = moved;
        }
    }
    m.positions = List::from_vec(p);
    m
}

fn fresh() -> Workspace {
    Workspace::new(ValidKeys { includes: Vec::new(), inputs: Vec::new() })
}

fn apply(w: &mut Workspace, cmd: EditorCommand) -> Result<Vec<EditorCommand>, EditorError> {
    w.apply_inner(cmd, &bake)
}

fn take_back(w: &mut Workspace, inverse: Vec<EditorCommand>) {
    for cmd in inverse {
        assert!(apply(w, cmd).is_ok());
    }
}

fn sphere() -> InsertSpec {
    InsertSpec::Primitive(PrimitiveShape::Sphere {
        radius: n(0.5),
        segments_long: 16,
        segments_lat: 12,
    })
}

fn insert(w: &mut Workspace, id: NodeId, spec: InsertSpec) {
    assert!(apply(w, EditorCommand::Insert { id, spec, parent: None }).is_ok());
}

fn tris(w: &Workspace, mesh: AssetId) -> usize {
    w.store.geometry.get(mesh.0).map(|g| g.indices.len() / 3).unwrap_or(0)
}

fn max_y(w: &Workspace, mesh: AssetId) -> f32 {
    let g = w.store.geometry.get(mesh.0).unwrap();
    g.positions.to_vec().iter().map(|p| x(p.y)).fold(f32::MIN, f32::max)
}

fn pick(indices: &[u32]) -> Pick {
    Pick { selection: None, indices: List::from_vec(indices.to_vec()) }
}

/// Where a pull at vertex 0 takes each vertex.
fn pull(w: &Workspace, mesh: AssetId, by: [f32; 3], falloff: f32) -> EditorCommand {
    let p: Vec<[f32; 3]> =
        w.store.geometry.get(mesh.0).unwrap().positions.to_vec().iter().map(arr).collect();
    let c = p[0];
    let targets = p
        .iter()
        .map(|q| {
            let d = ((q[0] - c[0]).powi(2) + (q[1] - c[1]).powi(2) + (q[2] - c[2]).powi(2)).sqrt();
            let k = if d < falloff { 1.0 - d / falloff } else { 0.0 };
            if k > 0.0 {
                v3([q[0] + by[0] * k, q[1] + by[1] * k, q[2] + by[2] * k])
            } else {
                v3(*q)
            }
        })
        .collect();
    EditorCommand::Mesh(MeshCommand::SoftTransformVertices {
        mesh,
        pick: pick(&[0]),
        targets: List::from_vec(targets),
    })
}

fn modifier(kind: ModifierKind, params: Vec<F32>) -> Modifier {
    Modifier { kind, iterations: 1, params: List::from_vec(params) }
}

fn add(mesh: AssetId, m: Modifier) -> EditorCommand {
    EditorCommand::Mesh(MeshCommand::AddModifier { mesh, modifier: m })
}

fn base_is_captured(w: &Workspace, mesh: AssetId) -> bool {
    match w.store.assets.get(mesh.0).map(|e| &e.source) {
        Some(AssetSource::Mesh(d)) => matches!(d.stack.base, MeshBase::Captured(_)),
        _ => panic!("not a mesh"),
    }
}

fn instancer_def(w: &Workspace, node: NodeId) -> InstancerDef {
    match &find_by_id(&w.nodes, node).expect("node exists").data.kind {
        NodeKind::Instancer(def) => def.same(),
        _ => panic!("expected Instancer"),
    }
}

fn set_transforms(node: NodeId, transforms: Vec<Trs>, colors: Option<Vec<Vec4>>) -> EditorCommand {
    EditorCommand::Node(NodeCommand {
        node,
        edit: NodeEdit::SetInstancerTransforms {
            transforms: List::from_vec(transforms),
            colors: colors.map(List::from_vec),
        },
    })
}

#[test]
fn unassigned_geometry_is_magenta_sentinel() {
    let mesh = NodeKind::Mesh {
        mesh: AssetId(1),
        palette: Palette { variants: List::empty(), selected: None },
        shadow: ShadowFlags::standard(),
        lod: LodSettings::standard(),
    };
    assert_eq!(unassigned_material_kind(&mesh), "unassigned");
}

#[test]
fn non_geometry_is_none() {
    assert_eq!(unassigned_material_kind(&NodeKind::Group), "none");
}

#[test]
fn set_instancer_transforms_replaces_and_undoes() {
    let mut w = fresh();
    let node = NodeId(7);
    insert(&mut w, node, InsertSpec::Instancer);
    assert!(instancer_def(&w, node).transforms.is_empty());

    let first = vec![trs([1.0, 0.0, 0.0]), trs([2.0, 0.0, 0.0]), trs([3.0, 0.0, 0.0])];
    let red = Vec4 { x: n(1.0), y: n(0.0), z: n(0.0), w: n(1.0) };
    assert!(apply(&mut w, set_transforms(node, first.clone(), Some(vec![red]))).is_ok());
    let def = instancer_def(&w, node);
    assert_eq!(def.transforms.to_vec(), first);
    assert_eq!(def.per_instance_colors.to_vec(), vec![red]);

    let second = vec![trs([9.0, 9.0, 9.0])];
    let inverse = match apply(&mut w, set_transforms(node, second.clone(), None)) {
        Ok(row) => row,
        Err(_) => panic!("applied"),
    };
    assert!(!inverse.is_empty(), "undoable");
    let def = instancer_def(&w, node);
    assert_eq!(def.transforms.to_vec(), second, "list replaced wholesale");
    assert_eq!(def.per_instance_colors.to_vec(), vec![red], "colors untouched when None");

    take_back(&mut w, inverse);
    let def = instancer_def(&w, node);
    assert_eq!(def.transforms.to_vec(), first, "undo restored the prior transforms");
}

#[test]
fn set_instancer_transforms_rejects_wrong_kind() {
    let mut w = fresh();
    let node = NodeId(7);
    insert(&mut w, node, InsertSpec::Empty);
    let r = apply(&mut w, set_transforms(node, vec![], None));
    assert!(r.is_err(), "group node must be rejected");
    assert!(matches!(r, Err(EditorError::NotAnInstancer)));
}

#[test]
fn modifiers_on_captured_base_do_not_compound() {
    let mut w = fresh();
    let node = NodeId(11);
    let mesh = AssetId(node.0);
    insert(&mut w, node, sphere());
    let base = tris(&w, mesh);
    assert!(base > 0, "sphere baked");

    let sculpt = pull(&w, mesh, [0.0, 0.2, 0.0], 0.3);
    assert!(apply(&mut w, sculpt).is_ok());
    assert!(base_is_captured(&w, mesh), "collapsed");

    assert!(apply(&mut w, add(mesh, modifier(ModifierKind::Subdivide, vec![]))).is_ok());
    assert_eq!(tris(&w, mesh), base * 4, "subdivide once = x4");

    assert!(apply(&mut w, add(mesh, modifier(ModifierKind::Smooth, vec![n(0.5)]))).is_ok());
    assert_eq!(tris(&w, mesh), base * 4, "no compounding: subdivide stayed applied once");
}

#[test]
fn set_mesh_modifiers_with_new_base_clears_stale_overrides() {
    let mut w = fresh();
    let node = NodeId(11);
    let mesh = AssetId(node.0);
    insert(&mut w, node, sphere());
    let sculpt = pull(&w, mesh, [0.0, 5.0, 0.0], 0.2);
    assert!(apply(&mut w, sculpt).is_ok());
    assert!(max_y(&w, mesh) > 1.0, "override pulled the tip up");

    let stack = ModifierStack {
        base: MeshBase::Primitive(PrimitiveShape::Sphere {
            radius: n(0.5),
            segments_long: 24,
            segments_lat: 16,
        }),
        modifiers: List::empty(),
    };
    assert!(
        apply(&mut w, EditorCommand::Mesh(MeshCommand::SetMeshModifiers { mesh, stack })).is_ok()
    );
    let new_max_y = max_y(&w, mesh);
    assert!(new_max_y < 0.6, "recipe replaced: clean sphere, not a ghost tip (got {new_max_y})");
}

#[test]
fn undo_walks_back_through_collapse_and_modifiers() {
    let mut w = fresh();
    let node = NodeId(11);
    let mesh = AssetId(node.0);
    insert(&mut w, node, sphere());
    let base = tris(&w, mesh);
    let base_max_y = max_y(&w, mesh);

    let sculpt = pull(&w, mesh, [0.0, 3.0, 0.0], 0.25);
    let inv_sculpt = match apply(&mut w, sculpt) {
        Ok(row) => row,
        Err(_) => panic!("sculpt applied"),
    };
    assert!(!inv_sculpt.is_empty(), "sculpt records an inverse");
    assert!(max_y(&w, mesh) > 1.0, "sculpt raised the tip");

    let inv_subdiv = match apply(&mut w, add(mesh, modifier(ModifierKind::Subdivide, vec![]))) {
        Ok(row) => row,
        Err(_) => panic!("added"),
    };
    assert!(!inv_subdiv.is_empty(), "add modifier records an inverse");
    assert_eq!(tris(&w, mesh), base * 4);

    let inv_smooth = match apply(&mut w, add(mesh, modifier(ModifierKind::Smooth, vec![n(0.5)]))) {
        Ok(row) => row,
        Err(_) => panic!("added"),
    };
    assert!(!inv_smooth.is_empty(), "add modifier records an inverse");
    assert_eq!(tris(&w, mesh), base * 4);

    take_back(&mut w, inv_smooth);
    assert_eq!(tris(&w, mesh), base * 4, "undo smooth: still subdivided once");
    take_back(&mut w, inv_subdiv);
    assert_eq!(tris(&w, mesh), base, "undo subdivide: back to the collapsed base");
    assert!(max_y(&w, mesh) > 1.0, "sculpt still present after undoing modifiers");
    take_back(&mut w, inv_sculpt);
    assert_eq!(tris(&w, mesh), base, "undo sculpt: tri count unchanged");
    assert!(
        (max_y(&w, mesh) - base_max_y).abs() < 0.02,
        "undo sculpt: tip back to the original sphere (got {}, want {base_max_y})",
        max_y(&w, mesh)
    );
}

#[test]
fn snapshot_id_is_saved_for_collapsed_meshes() {
    let mut w = fresh();
    let node = NodeId(11);
    let mesh = AssetId(node.0);
    insert(&mut w, node, sphere());
    let sculpt = pull(&w, mesh, [0.0, 0.3, 0.0], 0.25);
    assert!(apply(&mut w, sculpt).is_ok());
    assert!(apply(&mut w, add(mesh, modifier(ModifierKind::Subdivide, vec![]))).is_ok());

    let snap = captured_snapshot_id(mesh);
    assert_ne!(snap, mesh, "snapshot id is distinct from the asset id");
    assert!(
        w.store.geometry.keys().iter().any(|k| *k == snap.0),
        "the snapshot must be among the kept geometry"
    );
}

fn rename(node: NodeId, name: &str) -> EditorCommand {
    EditorCommand::Node(NodeCommand { node, edit: NodeEdit::Rename(name.to_string()) })
}

fn place(node: NodeId, t: [f32; 3]) -> EditorCommand {
    EditorCommand::Node(NodeCommand { node, edit: NodeEdit::SetTransform(trs(t)) })
}

fn name_of(c: &EditorController, id: NodeId) -> String {
    find_by_id(&c.work.nodes, id).unwrap().data.name.clone()
}

#[test]
fn undo_and_redo_walk_the_log() {
    let mut c = EditorController::new(fresh());
    let id = NodeId(3);
    assert!(!c.can_undo() && !c.can_redo());
    assert!(c.dispatch(EditorCommand::Insert { id, spec: InsertSpec::Empty, parent: None }, &bake).is_ok());
    let first = name_of(&c, id);
    assert!(c.dispatch(rename(id, "Left"), &bake).is_ok());
    assert_eq!(name_of(&c, id), "Left");
    assert!(c.can_undo() && !c.can_redo());
    c.undo(&bake);
    assert_eq!(name_of(&c, id), first);
    assert!(c.can_redo());
    c.redo(&bake);
    assert_eq!(name_of(&c, id), "Left");
    c.undo(&bake);
    c.undo(&bake);
    assert!(find_by_id(&c.work.nodes, id).is_none());
    assert!(!c.can_undo());
    c.reset_history();
    assert!(!c.can_redo());
}

#[test]
fn continuous_edits_are_one_step() {
    let mut c = EditorController::new(fresh());
    let id = NodeId(3);
    assert!(c.dispatch(EditorCommand::Insert { id, spec: InsertSpec::Empty, parent: None }, &bake).is_ok());
    let start = find_by_id(&c.work.nodes, id).unwrap().data.transform;
    for i in 1..=5 {
        assert!(c.dispatch(place(id, [i as f32, 0.0, 0.0]), &bake).is_ok());
    }
    assert_eq!(find_by_id(&c.work.nodes, id).unwrap().data.transform, trs([5.0, 0.0, 0.0]));
    c.undo(&bake);
    assert_eq!(find_by_id(&c.work.nodes, id).unwrap().data.transform, start);
}

#[test]
fn batch_is_one_step() {
    let mut c = EditorController::new(fresh());
    let (a, b) = (NodeId(3), NodeId(4));
    let both = vec![
        EditorCommand::Insert { id: a, spec: InsertSpec::Empty, parent: None },
        EditorCommand::Insert { id: b, spec: InsertSpec::Empty, parent: Some(a) },
        rename(b, "Leaf"),
    ];
    assert!(c.dispatch_batch(both, &bake).is_ok());
    assert_eq!(name_of(&c, b), "Leaf");
    c.undo(&bake);
    assert!(find_by_id(&c.work.nodes, a).is_none() && find_by_id(&c.work.nodes, b).is_none());

    let broken = vec![
        EditorCommand::Insert { id: a, spec: InsertSpec::Empty, parent: None },
        set_transforms(a, vec![], None),
    ];
    let r = c.dispatch(EditorCommand::Batch(broken), &bake);
    match r {
        Err(e) => assert_eq!(
            e.message(),
            "batch[1] (Set Instancer Transforms): node is not an instancer"
        ),
        Ok(_) => panic!("refused"),
    }
    assert!(find_by_id(&c.work.nodes, a).is_none(), "nothing of a refused batch stays");
}

#[test]
fn refused_command_changes_nothing() {
    let mut c = EditorController::new(fresh());
    let r = c.dispatch(rename(NodeId(99), "x"), &bake);
    assert!(matches!(r, Err(EditorError::TargetNotFound)));
    assert!(c.work.nodes.is_empty() && !c.work.dirty && !c.can_undo());
    if let Err(e) = r {
        assert_eq!(
            e.message(),
            "target id not found — command not applied (check ids against get_snapshot)"
        );
    }
}

#[test]
fn delete_and_undo_keep_the_place() {
    let mut c = EditorController::new(fresh());
    for i in 1..=3u128 {
        let id = NodeId(i);
        assert!(c
            .dispatch(EditorCommand::Insert { id, spec: InsertSpec::Empty, parent: None }, &bake)
            .is_ok());
    }
    assert!(c.dispatch(EditorCommand::Delete { id: NodeId(2) }, &bake).is_ok());
    assert_eq!(c.work.nodes.len(), 2);
    c.undo(&bake);
    assert_eq!(c.work.nodes[1].id, NodeId(2));
}

#[test]
fn a_node_cannot_move_below_itself() {
    let mut c = EditorController::new(fresh());
    let (a, b) = (NodeId(1), NodeId(2));
    assert!(c.dispatch(EditorCommand::Insert { id: a, spec: InsertSpec::Empty, parent: None }, &bake).is_ok());
    assert!(c.dispatch(EditorCommand::Insert { id: b, spec: InsertSpec::Empty, parent: Some(a) }, &bake).is_ok());
    let _ = c.dispatch(EditorCommand::Reparent { id: a, new_parent: Some(b), index: None }, &bake);
    assert_eq!(c.work.nodes.len(), 1);
    assert_eq!(c.work.nodes[0].id, a);
    assert_eq!(c.work.nodes[0].children[0].id, b);
    assert!(c.dispatch(EditorCommand::Reparent { id: b, new_parent: None, index: Some(0) }, &bake).is_ok());
    assert_eq!(c.work.nodes[0].id, b);
    c.undo(&bake);
    assert_eq!(c.work.nodes[0].children[0].id, b);
}

#[test]
fn new_project_has_no_past() {
    let mut c = EditorController::new(fresh());
    let id = NodeId(1);
    assert!(c.dispatch(EditorCommand::Insert { id, spec: sphere(), parent: None }, &bake).is_ok());
    assert!(c.can_undo());
    let light = scene_editor::tree::Node {
        id: NodeId(50),
        data: scene_editor::tree::NodeData {
            name: "Sun".to_string(),
            transform: Trs::identity(),
            kind: NodeKind::Group,
            visible: true,
            locked: false,
            prefab: false,
        },
        children: Vec::new(),
    };
    assert!(c.dispatch(EditorCommand::NewProject { light }, &bake).is_ok());
    assert!(!c.can_undo() && !c.can_redo());
    assert_eq!(c.work.nodes.len(), 1);
    assert_eq!(c.work.nodes[0].id, NodeId(50));
    assert_eq!(c.work.project_name, "untitled.awsm");
    assert!(!c.work.dirty);
}

#[test]
fn external_edits_are_counted() {
    let mut c = EditorController::new(fresh());
    c.note_external_mutation();
    c.note_external_mutation();
    assert_eq!(c.work.external_rev, 2);
}

fn paint(mesh: AssetId, indices: &[u32], red: f32) -> EditorCommand {
    let color = Vec4 { x: n(red), y: n(0.0), z: n(0.0), w: n(1.0) };
    EditorCommand::Mesh(MeshCommand::PaintVertexColors { mesh, pick: pick(indices), color })
}

fn def_of(w: &Workspace, mesh: AssetId) -> MeshDef {
    match w.store.assets.get(mesh.0).map(|e| &e.source) {
        Some(AssetSource::Mesh(d)) => d.same(),
        _ => panic!("not a mesh"),
    }
}

fn flat(w: &Workspace, mesh: AssetId) -> Vec<[f32; 3]> {
    w.store.geometry.get(mesh.0).unwrap().positions.to_vec().iter().map(arr).collect()
}

#[test]
fn refused_batch_changes_nothing() {
    let mut c = EditorController::new(fresh());
    let (a, x) = (NodeId(3), NodeId(9));
    assert!(c
        .dispatch(EditorCommand::Insert { id: a, spec: InsertSpec::Empty, parent: None }, &bake)
        .is_ok());
    assert!(c.dispatch(rename(a, "A"), &bake).is_ok());
    c.undo(&bake);
    c.redo(&bake);
    match c.dispatch_batch(vec![rename(a, "B"), rename(x, "C")], &bake) {
        Err(e) => assert!(e.message().starts_with("batch[1] (")),
        Ok(_) => panic!("refused"),
    }
    assert_eq!(name_of(&c, a), "A");
    assert_eq!(c.snapshot().undo_depth, 2);
    let light = scene_editor::tree::Node {
        id: NodeId(50),
        data: find_by_id(&c.work.nodes, a).unwrap().data.same(),
        children: Vec::new(),
    };
    let over = vec![EditorCommand::NewProject { light }, rename(x, "C")];
    assert!(c.dispatch_batch(over, &bake).is_err());
    assert_eq!(name_of(&c, a), "A");
    assert!(c.can_undo(), "the past is kept");
}

#[test]
fn strokes_on_one_mesh_are_one_step() {
    let mut c = EditorController::new(fresh());
    let mesh = AssetId(3);
    let spec = sphere();
    assert!(c.dispatch(EditorCommand::Insert { id: NodeId(3), spec, parent: None }, &bake).is_ok());
    let bare = EditorCommand::Mesh(MeshCommand::CollapseMeshStack { mesh });
    assert!(c.dispatch(bare, &bake).is_ok());
    assert!(c.dispatch(paint(mesh, &[0], 0.5), &bake).is_ok());
    let depth = c.snapshot().undo_depth;
    assert!(c.dispatch(paint(mesh, &[1], 0.75), &bake).is_ok());
    assert_eq!(c.snapshot().undo_depth, depth);
    let normal = v3([0.0, 1.0, 0.0]);
    let bend = EditorCommand::Mesh(MeshCommand::SetVertexNormals { mesh, pick: pick(&[2]), normal });
    assert!(c.dispatch(bend, &bake).is_ok());
    assert_eq!(c.snapshot().undo_depth, depth + 1, "another channel is another step");
    c.undo(&bake);
    c.undo(&bake);
    assert!(def_of(&c.work, mesh).overrides.is_empty());
}

#[test]
fn an_edit_of_a_kind_is_not_swallowed() {
    let mut c = EditorController::new(fresh());
    let id = NodeId(3);
    let kind = NodeKind::Instancer(InstancerDef {
        mesh: AssetId(8),
        transforms: List::empty(),
        per_instance_colors: List::empty(),
    });
    assert!(c
        .dispatch(EditorCommand::Insert { id, spec: InsertSpec::Instancer, parent: None }, &bake)
        .is_ok());
    assert!(c.dispatch(set_transforms(id, vec![trs([1.0, 0.0, 0.0])], None), &bake).is_ok());
    let depth = c.snapshot().undo_depth;
    let set = EditorCommand::Node(NodeCommand { node: id, edit: NodeEdit::SetKind(kind) });
    assert!(c.dispatch(set, &bake).is_ok());
    assert_eq!(c.snapshot().undo_depth, depth + 1);
    c.undo(&bake);
    assert_eq!(instancer_def(&c.work, id).transforms.len(), 1);
}

#[test]
fn painted_recipe_comes_back_whole() {
    let mut w = fresh();
    let mesh = AssetId(3);
    insert(&mut w, NodeId(3), sphere());
    let up = pull(&w, mesh, [0.0, 1.0, 0.0], 0.3);
    assert!(apply(&mut w, up).is_ok());
    assert!(apply(&mut w, add(mesh, modifier(ModifierKind::Subdivide, Vec::new()))).is_ok());
    let (before, shape) = (def_of(&w, mesh), flat(&w, mesh));
    assert!(!before.overrides.is_empty() && before.stack.modifiers.len() == 1);

    let swap = EditorCommand::Mesh(MeshCommand::SetMeshModifiers {
        mesh,
        stack: ModifierStack {
            base: MeshBase::Primitive(PrimitiveShape::Sphere {
                radius: n(2.0),
                segments_long: 8,
                segments_lat: 6,
            }),
            modifiers: List::empty(),
        },
    });
    let edits = vec![
        paint(mesh, &[0], 1.0),
        EditorCommand::Mesh(MeshCommand::CollapseMeshStack { mesh }),
        EditorCommand::Mesh(MeshCommand::BakeAll),
        swap,
    ];
    for edit in edits {
        let inverse = apply(&mut w, edit).ok().unwrap();
        assert!(!inverse.is_empty());
        assert_ne!(def_of(&w, mesh).stack.modifiers.len(), 1);
        take_back(&mut w, inverse);
        let d = def_of(&w, mesh);
        assert_eq!(d.stack.modifiers.len(), 1, "the recipe is back");
        assert!(d.overrides.positions.get(0) == before.overrides.positions.get(0));
        assert!(d.overrides.colors.get(0).is_none());
        assert_eq!(flat(&w, mesh), shape);
    }
}

#[test]
fn split_gives_the_recipe_back() {
    let mut w = fresh();
    let mesh = AssetId(3);
    insert(&mut w, NodeId(3), sphere());
    let shape = flat(&w, mesh);
    let split = Split {
        node: NodeId(3),
        pick: pick(&[0, 1, 17]),
        new_node: NodeId(4),
        keep_remainder: true,
        extracted: mesh_of(vec![[0.0; 3]; 3], vec![0, 1, 2]),
        remainder: mesh_of(vec![[1.0; 3]; 3], vec![0, 1, 2]),
    };
    let inverse = apply(&mut w, EditorCommand::SeparateMesh(split)).ok().unwrap();
    assert!(base_is_captured(&w, mesh) && w.nodes.len() == 2);
    take_back(&mut w, inverse);
    assert!(!base_is_captured(&w, mesh), "a plain primitive again");
    assert_eq!(flat(&w, mesh), shape);
    assert_eq!(w.nodes.len(), 1);
    assert!(w.store.assets.get(4).is_none());
}

#[test]
fn a_move_by_an_unknown_handle_is_refused() {
    let mut w = fresh();
    insert(&mut w, NodeId(3), sphere());
    let r = apply(
        &mut w,
        EditorCommand::Mesh(MeshCommand::SoftTransformVertices {
            mesh: AssetId(3),
            pick: Pick { selection: Some(77), indices: List::empty() },
            targets: List::empty(),
        }),
    );
    assert!(matches!(r, Err(EditorError::NoSelectionHandle(77))));
    assert!(!base_is_captured(&w, AssetId(3)));
}

#[test]
fn purge_is_taken_back() {
    let mut w = fresh();
    for k in 1..=3u128 {
        w.store.assets.insert(k, AssetEntry::new(AssetSource::Filename(format!("f{k}"))));
    }
    let purge = EditorCommand::PurgeUnusedAssets { roots: Vec::new(), docs: Table::new() };
    let inverse = apply(&mut w, purge).ok().unwrap();
    assert_eq!(w.store.assets.len(), 0);
    take_back(&mut w, inverse);
    for k in 1..=3u128 {
        match &w.store.assets.get(k).unwrap().source {
            AssetSource::Filename(f) => assert_eq!(*f, format!("f{k}")),
            _ => panic!("a file"),
        }
    }
}

#[test]
fn edits_of_the_scene_are_counted() {
    let mut w = fresh();
    let mesh = AssetId(3);
    assert_eq!(w.scene_revision, 0);
    insert(&mut w, NodeId(3), sphere());
    assert_eq!(w.scene_revision, 1);
    insert(&mut w, NodeId(3), sphere());
    assert_eq!(w.scene_revision, 1, "the node is there already");
    assert!(apply(&mut w, rename(NodeId(9), "lost")).is_err());
    assert_eq!(w.scene_revision, 1, "what is refused does not count");
    assert!(apply(&mut w, rename(NodeId(3), "Ball")).is_ok());
    assert_eq!(w.scene_revision, 2);
    let stay = pull(&w, mesh, [0.0, 0.0, 0.0], 0.3);
    assert!(apply(&mut w, stay).ok().unwrap().is_empty());
    assert_eq!(w.scene_revision, 3, "a move counts though nothing moves");
    assert!(apply(&mut w, EditorCommand::Mesh(MeshCommand::BakeAll)).ok().unwrap().is_empty());
    assert_eq!(w.scene_revision, 4, "baking counts though nothing is left to bake");
    let collapse = EditorCommand::Mesh(MeshCommand::CollapseMeshStack { mesh });
    assert!(apply(&mut w, collapse).ok().unwrap().is_empty());
    assert_eq!(w.scene_revision, 4);
    let data = EditorCommand::Mesh(MeshCommand::SetMeshData {
        mesh: AssetId(77),
        data: sphere_mesh(1.0, 4, 3),
        allow_empty: false,
    });
    assert!(apply(&mut w, data).ok().unwrap().is_empty());
    assert_eq!(w.scene_revision, 5, "new geometry counts though it cannot be taken back");

    let material = |id: u128| {
        EditorCommand::Library(LibraryCommand::AddCustomMaterial { id: AssetId(id) })
    };
    assert!(apply(&mut w, material(20)).is_ok());
    assert_eq!(w.scene_revision, 6);
    assert!(apply(&mut w, material(20)).is_ok());
    assert_eq!(w.scene_revision, 6);
    let wgsl = LibraryCommand::SetCustomMaterialWgsl { id: AssetId(20), wgsl: "x".to_string() };
    assert!(apply(&mut w, EditorCommand::Library(wgsl)).is_ok());
    assert_eq!(w.scene_revision, 6, "a source is not the scene");
    let gone = LibraryCommand::DeleteCustomMaterial { id: AssetId(20) };
    assert!(apply(&mut w, EditorCommand::Library(gone)).is_ok());
    assert_eq!(w.scene_revision, 7);
    let clip = EditorCommand::Clip(ClipCommand::AddClip { id: AssetId(30), name: None });
    assert!(apply(&mut w, clip).is_ok());
    assert_eq!(w.scene_revision, 7, "clips are not the scene");

    w.scene_revision = u64::MAX;
    let light = w.nodes.remove(0);
    assert!(apply(&mut w, EditorCommand::NewProject { light }).is_ok());
    assert_eq!(w.scene_revision, 1, "a new project counts twice, and the count wraps");
}

#[test]
fn undoing_counts_too() {
    let mut c = EditorController::new(fresh());
    let node = NodeId(3);
    let cmd = EditorCommand::Insert { id: node, spec: sphere(), parent: None };
    assert!(c.dispatch(cmd, &bake).is_ok());
    assert!(c.dispatch(rename(node, "A"), &bake).is_ok());
    assert_eq!(c.work.scene_revision, 2);
    c.undo(&bake);
    assert_eq!(c.work.scene_revision, 3);
    let row = vec![rename(node, "B"), rename(NodeId(9), "C")];
    assert!(c.dispatch_batch(row, &bake).is_err());
    assert_eq!(c.work.scene_revision, 4, "the count goes on");
    assert_ne!(name_of(&c, node), "B");
}
