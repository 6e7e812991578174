//! Edits that touch nodes and assets together: adding a node with its mesh,
//! painting the mesh of a node, splitting a mesh, and freeing one from its rig.
use crate::asset_edit::{is_imported_mesh, mint_imported_mesh};
use crate::assets::{
    AssetEntry, AssetSource, CapturedSource, MeshBase, MeshData, MeshDef, ModifierStack,
    PrimitiveShape, SweepDef, VertexOverrides,
};
use crate::errors::EditorError;
use crate::ids::{AssetId, NodeId};
use crate::list::{List, Same};
use crate::mesh_edit::{
    as_seq, bakes, mesh_def, mesh_step, restore_of, total, with_def, MeshCommand, MeshStore, Pick,
    StoreView,
};
use crate::node::{InstancerDef, LodSettings, NodeKind, ShadowFlags};
use crate::node_edit::{NodeCommand, NodeEdit};
use crate::palette::Palette;
use crate::selections::{resolved, SelectionsView, VertexSelections};
use crate::table::Table;
use crate::tree::{
    added, find, find_by_id, find_place, forest, has_node, insert_tree, lemma_find, put, put_data,
    within, Node, NodeData, Tree,
};
use crate::tree_edit::parent_of;
use crate::tree_laws::lemma_place_is_within;
use crate::values::{Trs, Vec3, Vec4};
use vstd::prelude::*;

verus! {

/// What is added to a scene.
pub enum InsertSpec {
    Empty,
    Instancer,
    Primitive(PrimitiveShape),
    Sweep(SweepDef),
    /// A node of any other kind, with the settings that the caller gives it.
    Prepared { what: InsertKind, data: NodeData },
}

/// What an added node is, where it has no geometry of its own.
#[derive(Clone, Copy, PartialEq, Eq, Structural, Debug)]
pub enum InsertKind {
    DirectionalLight,
    PointLight,
    SpotLight,
    Camera,
    CollisionBox,
    CollisionSphere,
    CollisionCapsule,
    CollisionCylinder,
    CollisionCone,
    CollisionEllipsoid,
    Curve,
    Line,
    Sprite,
    Particle,
    Decal,
    Mesh,
}

/// The name of a primitive.
pub open spec fn primitive_name(shape: PrimitiveShape) -> Seq<char> {
    match shape {
        PrimitiveShape::Plane { .. } => "Plane"@,
        PrimitiveShape::Box { .. } => "Box"@,
        PrimitiveShape::Sphere { .. } => "Sphere"@,
        PrimitiveShape::Cylinder { .. } => "Cylinder"@,
        PrimitiveShape::Cone { .. } => "Cone"@,
        PrimitiveShape::Torus { .. } => "Torus"@,
    }
}

/// The name of a primitive.
pub fn primitive_label(shape: PrimitiveShape) -> (r: &'static str)
    ensures
        r@ == primitive_name(shape),
{
    match shape {
        PrimitiveShape::Plane { .. } => "Plane",
        PrimitiveShape::Box { .. } => "Box",
        PrimitiveShape::Sphere { .. } => "Sphere",
        PrimitiveShape::Cylinder { .. } => "Cylinder",
        PrimitiveShape::Cone { .. } => "Cone",
        PrimitiveShape::Torus { .. } => "Torus",
    }
}

/// Whether a node is new: shown, not locked, no prefab, nothing below it.
pub open spec fn is_plain_node(n: Tree, id: NodeId, name: Seq<char>, transform: Trs) -> bool {
    &&& n.id == id
    &&& n.data.name@ == name
    &&& n.data.transform == transform
    &&& n.data.visible
    &&& !n.data.locked
    &&& !n.data.prefab
    &&& n.children.len() == 0
}

/// Whether a kind is a mesh that no material is assigned to.
pub open spec fn is_bare_mesh(k: NodeKind, mesh: AssetId) -> bool {
    match k {
        NodeKind::Mesh { mesh: m, palette, shadow, lod } => {
            &&& m == mesh
            &&& palette.variants@.len() == 0
            &&& palette.selected is None
            &&& shadow == ShadowFlags::standard()
            &&& lod == LodSettings::standard()
        },
        _ => false,
    }
}

/// The recipe that an added node's mesh starts from, where it has one.
pub open spec fn insert_base(spec: InsertSpec) -> Option<(MeshBase, CapturedSource, Seq<char>)> {
    match spec {
        InsertSpec::Primitive(shape) => Some(
            (
                MeshBase::Primitive(shape),
                CapturedSource::Primitive(shape),
                primitive_name(shape),
            ),
        ),
        InsertSpec::Sweep(def) => Some(
            (MeshBase::Sweep(def), CapturedSource::Sweep(def), "Sweep"@),
        ),
        _ => None,
    }
}

/// Whether a tree is what a spec without geometry adds.
pub open spec fn is_inserted(n: Tree, id: NodeId, spec: InsertSpec) -> bool {
    match spec {
        InsertSpec::Empty => is_plain_node(n, id, "Empty"@, Trs::identity()) && n.data.kind
            is Group,
        InsertSpec::Instancer => is_plain_node(n, id, "Instancer"@, Trs::identity()) && (
        n.data.kind matches NodeKind::Instancer(d) && d.transforms@.len() == 0
            && d.per_instance_colors@.len() == 0),
        InsertSpec::Prepared { data, .. } => n.id == id && n.data == data && n.children.len() == 0,
        _ => false,
    }
}

/// What adding a node does to the scene and its assets. The mesh of a primitive
/// has the id of its node.
pub open spec fn insert_step<
    F: Fn(&ModifierStack, &VertexOverrides, &Table<MeshData>) -> MeshData,
>(
    eval: F,
    f: Seq<Tree>,
    v: StoreView,
    id: NodeId,
    spec: InsertSpec,
    parent: Option<NodeId>,
    g: Seq<Tree>,
    w: StoreView,
    done: Inserted,
) -> bool {
    let there = parent matches Some(p) ==> within(f, p);
    if within(f, id) {
        g == f && w == v && done == Inserted::Nothing
    } else {
        match insert_base(spec) {
            Some((base, source, name)) => {
                let mesh = AssetId(id.0);
                let d = mesh_def(w, mesh)->0;
                &&& mesh_def(w, mesh) is Some
                &&& d.label@ == name
                &&& d.source == Some(source)
                &&& d.editable
                &&& d.stack.base == base
                &&& d.stack.modifiers@.len() == 0
                &&& d.overrides.blank()
                &&& w.assets == v.assets.insert(mesh.0, w.assets[mesh.0])
                &&& w.assets[mesh.0].is_plain(AssetSource::Mesh(d), seq![])
                &&& w.geometry == v.geometry.insert(mesh.0, w.geometry[mesh.0])
                &&& exists|none: VertexOverrides|
                    none.blank() && #[trigger] bakes(
                        eval,
                        d.stack,
                        none,
                        v.geometry,
                        w.geometry[mesh.0],
                    )
                &&& if there {
                    &&& done == Inserted::NodeAndMesh
                    &&& exists|n: Tree|
                        is_plain_node(n, id, name, Trs::identity()) && is_bare_mesh(
                            n.data.kind,
                            mesh,
                        ) && g == #[trigger] added(f, parent, None, n)
                } else {
                    g == f && done == Inserted::Nothing
                }
            },
            None => {
                &&& w == v
                &&& if there {
                    &&& done == Inserted::Node
                    &&& exists|n: Tree|
                        is_inserted(n, id, spec) && g == #[trigger] added(f, parent, None, n)
                } else {
                    g == f && done == Inserted::Nothing
                }
            },
        }
    }
}

/// What was added.
#[derive(Clone, Copy, PartialEq, Eq, Structural, Debug)]
pub enum Inserted {
    Nothing,
    Node,
    NodeAndMesh,
}

fn plain_node(id: NodeId, name: &str, transform: Trs, kind: NodeKind) -> (n: Node)
    ensures
        is_plain_node(n.model(), id, name@, transform),
        n.model().data.kind == kind,
{
    Node {
        id,
        data: NodeData {
            name: name.to_owned(),
            transform,
            kind,
            visible: true,
            locked: false,
            prefab: false,
        },
        children: Vec::new(),
    }
}

fn bare_mesh(mesh: AssetId) -> (k: NodeKind)
    ensures
        is_bare_mesh(k, mesh),
{
    NodeKind::Mesh {
        mesh,
        palette: Palette::empty(),
        shadow: ShadowFlags::standard(),
        lod: LodSettings::standard(),
    }
}

/// Registers a mesh asset with a recipe and bakes it.
fn build_mesh_insert<F: Fn(&ModifierStack, &VertexOverrides, &Table<MeshData>) -> MeshData>(
    store: &mut MeshStore,
    mesh: AssetId,
    label: &str,
    base: MeshBase,
    source: CapturedSource,
    eval: &F,
)
    requires
        total(*eval),
    ensures
        ({
            let v = old(store)@;
            let w = final(store)@;
            let d = mesh_def(w, mesh)->0;
            &&& mesh_def(w, mesh) is Some
            &&& d.label@ == label@
            &&& d.source == Some(source)
            &&& d.editable
            &&& d.stack.base == base
            &&& d.stack.modifiers@.len() == 0
            &&& d.overrides.blank()
            &&& w.assets == v.assets.insert(mesh.0, w.assets[mesh.0])
            &&& w.assets[mesh.0].is_plain(AssetSource::Mesh(d), seq![])
            &&& w.geometry == v.geometry.insert(mesh.0, w.geometry[mesh.0])
            &&& exists|none: VertexOverrides|
                none.blank() && #[trigger] bakes(
                    *eval,
                    d.stack,
                    none,
                    v.geometry,
                    w.geometry[mesh.0],
                )
        }),
{
    let ghost v = store@;
    let stack = ModifierStack { base, modifiers: List::empty() };
    let none = VertexOverrides::none();
    let b = eval(&stack, &none, &store.geometry);
    assert(bakes(*eval, stack, none, v.geometry, b)) by {
        assert(call_ensures(*eval, (&stack, &none, &store.geometry), b));
    }
    store.geometry.insert(mesh.0, b);
    let def = MeshDef {
        label: label.to_owned(),
        source: Some(source),
        editable: true,
        stack: stack.same(),
        overrides: VertexOverrides::none(),
    };
    store.assets.insert(mesh.0, AssetEntry::new(AssetSource::Mesh(def)));
    proof {
        let d = mesh_def(store@, mesh)->0;
        assert(d.stack == stack);
        assert(none.blank() && bakes(*eval, d.stack, none, v.geometry, store@.geometry[mesh.0]));
    }
}

/// Adds a node. An id that is taken is left alone, and without the parent the
/// node is not added.
pub fn insert_node<F: Fn(&ModifierStack, &VertexOverrides, &Table<MeshData>) -> MeshData>(
    nodes: &mut Vec<Node>,
    store: &mut MeshStore,
    id: NodeId,
    spec: InsertSpec,
    parent: Option<NodeId>,
    eval: &F,
) -> (r: Inserted)
    requires
        total(*eval),
    ensures
        insert_step(
            *eval,
            forest(old(nodes)@),
            old(store)@,
            id,
            spec,
            parent,
            forest(final(nodes)@),
            final(store)@,
            r,
        ),
{
    let ghost f = forest(nodes@);
    let ghost v = store@;
    if has_node(nodes, id) {
        return Inserted::Nothing;
    }
    let mesh = AssetId(id.0);
    let node = match spec {
        InsertSpec::Primitive(shape) => {
            let label = primitive_label(shape);
            build_mesh_insert(
                store,
                mesh,
                label,
                MeshBase::Primitive(shape),
                CapturedSource::Primitive(shape),
                eval,
            );
            let n = plain_node(id, label, Trs::identity(), bare_mesh(mesh));
            let ghost t = n.model();
            if insert_tree(nodes, parent, None, n) {
                assert(forest(nodes@) == added(f, parent, None, t));
                return Inserted::NodeAndMesh;
            }
            return Inserted::Nothing;
        },
        InsertSpec::Sweep(def) => {
            build_mesh_insert(
                store,
                mesh,
                "Sweep",
                MeshBase::Sweep(def),
                CapturedSource::Sweep(def),
                eval,
            );
            let n = plain_node(id, "Sweep", Trs::identity(), bare_mesh(mesh));
            let ghost t = n.model();
            if insert_tree(nodes, parent, None, n) {
                assert(forest(nodes@) == added(f, parent, None, t));
                return Inserted::NodeAndMesh;
            }
            return Inserted::Nothing;
        },
        InsertSpec::Empty => plain_node(id, "Empty", Trs::identity(), NodeKind::Group),
        InsertSpec::Instancer => plain_node(
            id,
            "Instancer",
            Trs::identity(),
            NodeKind::Instancer(
                InstancerDef {
                    mesh: AssetId(0),
                    transforms: List::empty(),
                    per_instance_colors: List::empty(),
                },
            ),
        ),
        InsertSpec::Prepared { data, .. } => Node { id, data, children: Vec::new() },
    };
    let ghost t = node.model();
    if insert_tree(nodes, parent, None, node) {
        assert(is_inserted(t, id, spec) && forest(nodes@) == added(f, parent, None, t));
        Inserted::Node
    } else {
        Inserted::Nothing
    }
}

/// Whether a node is a skinned mesh.
pub fn node_is_skinned(nodes: &Vec<Node>, node: NodeId) -> (r: bool)
    ensures
        r == (find(forest(nodes@), node) matches Some(t) && t.data.kind is SkinnedMesh),
{
    match find_by_id(nodes, node) {
        Some(n) => match n.data.kind {
            NodeKind::SkinnedMesh { .. } => true,
            _ => false,
        },
        None => false,
    }
}

/// The mesh of a node that can be edited, or why there is none.
pub open spec fn editable_mesh(f: Seq<Tree>, geometry: Map<u128, MeshData>, node: NodeId) -> Result<
    AssetId,
    EditorError,
> {
    match find(f, node) {
        None => Err(EditorError::NodeNotFound(node)),
        Some(t) => match t.data.kind {
            NodeKind::SkinnedMesh { .. } => Err(EditorError::SkinnedNode(node)),
            NodeKind::Mesh { mesh, .. } => if geometry.contains_key(mesh.0) {
                Ok(mesh)
            } else {
                Err(EditorError::NoGeometry(node))
            },
            _ => Err(EditorError::NotAMeshNode(node)),
        },
    }
}

/// The mesh of a node that can be edited, with its geometry.
pub fn node_editable_mesh(nodes: &Vec<Node>, store: &MeshStore, node: NodeId) -> (r: Result<
    (AssetId, MeshData),
    EditorError,
>)
    ensures
        match editable_mesh(forest(nodes@), store@.geometry, node) {
            Ok(mesh) => r == Ok::<(AssetId, MeshData), EditorError>(
                (mesh, store@.geometry[mesh.0]),
            ),
            Err(e) => r == Err::<(AssetId, MeshData), EditorError>(e),
        },
{
    match find_by_id(nodes, node) {
        None => Err(EditorError::NodeNotFound(node)),
        Some(n) => match &n.data.kind {
            NodeKind::SkinnedMesh { .. } => Err(EditorError::SkinnedNode(node)),
            NodeKind::Mesh { mesh, .. } => match store.geometry.get(mesh.0) {
                Some(g) => Ok((*mesh, g.same())),
                None => Err(EditorError::NoGeometry(node)),
            },
            _ => Err(EditorError::NotAMeshNode(node)),
        },
    }
}

/// Edits of the mesh of a node, with what the caller worked out beforehand: the
/// vertices that a predicate selects, and where a falloff or a height map takes
/// each vertex.
#[allow(inconsistent_fields)]
pub enum NodeMeshCommand {
    PaintVerticesWhere { node: NodeId, indices: List<u32>, color: Vec4 },
    TransformVerticesWhere { node: NodeId, indices: List<u32>, targets: List<Vec3> },
    DisplaceFromTexture { node: NodeId, targets: List<Vec3> },
}

/// The first `n` vertex indices.
pub open spec fn first_indices(n: nat) -> Seq<u32> {
    Seq::new(
        if n <= u32::MAX {
            n
        } else {
            u32::MAX as nat
        },
        |i: int| i as u32,
    )
}

/// The edit of the mesh that an edit by node comes down to, if it comes to one,
/// as to what it picks and paints.
pub open spec fn lowered(cmd: NodeMeshCommand, mesh: AssetId, vertices: nat, low: MeshCommand) -> bool {
    match cmd {
        NodeMeshCommand::PaintVerticesWhere { indices, color, .. } => low == (
        MeshCommand::PaintVertexColors { mesh, pick: Pick { selection: None, indices }, color }),
        NodeMeshCommand::TransformVerticesWhere { indices, targets, .. } => low == (
        MeshCommand::SoftTransformVertices { mesh, pick: Pick { selection: None, indices }, targets }),
        NodeMeshCommand::DisplaceFromTexture { targets, .. } => low matches
            MeshCommand::SetVertexPositions { mesh: m, pick, positions } && m == mesh
            && pick.selection is None && pick.indices@ == first_indices(vertices) && positions
            == targets,
    }
}

/// The node that an edit by node names, and whether nothing is selected.
pub open spec fn by_node(cmd: NodeMeshCommand) -> (NodeId, bool) {
    match cmd {
        NodeMeshCommand::PaintVerticesWhere { node, indices, .. } => (node, indices@.len() == 0),
        NodeMeshCommand::TransformVerticesWhere { node, indices, .. } => (
            node,
            indices@.len() == 0,
        ),
        NodeMeshCommand::DisplaceFromTexture { node, .. } => (node, false),
    }
}

/// An edit of the mesh of a node. Painting and moving pass over a node whose
/// mesh cannot be edited; displacing refuses it.
pub open spec fn node_mesh_step<
    F: Fn(&ModifierStack, &VertexOverrides, &Table<MeshData>) -> MeshData,
>(
    eval: F,
    sel: SelectionsView,
    f: Seq<Tree>,
    v: StoreView,
    cmd: NodeMeshCommand,
    w: StoreView,
    r: Result<Seq<MeshCommand>, EditorError>,
) -> bool {
    let (node, empty) = by_node(cmd);
    match editable_mesh(f, v.geometry, node) {
        Err(e) => w == v && if cmd is DisplaceFromTexture {
            r == Err::<Seq<MeshCommand>, EditorError>(e)
        } else {
            r == Ok::<Seq<MeshCommand>, EditorError>(seq![])
        },
        Ok(mesh) => if empty {
            w == v && r == Ok::<Seq<MeshCommand>, EditorError>(seq![])
        } else {
            exists|low: MeshCommand|
                lowered(cmd, mesh, v.geometry[mesh.0].positions@.len(), low)
                    && #[trigger] mesh_step(eval, sel, v, low, w, r)
        },
    }
}

/// A refused edit of the mesh of a node changes nothing.
pub proof fn lemma_refused_node_mesh_edit<
    F: Fn(&ModifierStack, &VertexOverrides, &Table<MeshData>) -> MeshData,
>(
    eval: F,
    sel: SelectionsView,
    f: Seq<Tree>,
    v: StoreView,
    cmd: NodeMeshCommand,
    w: StoreView,
    e: EditorError,
)
    requires
        node_mesh_step(eval, sel, f, v, cmd, w, Err(e)),
    ensures
        w == v,
{
    let (node, empty) = by_node(cmd);
    if let Ok(mesh) = editable_mesh(f, v.geometry, node) {
        if !empty {
            let low = choose|low: MeshCommand|
                lowered(cmd, mesh, v.geometry[mesh.0].positions@.len(), low)
                    && #[trigger] mesh_step(eval, sel, v, low, w, Err(e));
            crate::mesh_edit::lemma_refused_mesh_edit(eval, sel, v, low, w, e);
        }
    }
}

fn make_first_indices(n: usize) -> (r: List<u32>)
    ensures
        r@ == first_indices(n as nat),
{
    let top: u32 = if n <= u32::MAX as usize {
        n as u32
    } else {
        u32::MAX
    };
    let mut out: Vec<u32> = Vec::new();
    let mut i: u32 = 0;
    while i < top
        invariant
            i <= top,
            out@.len() == i,
            forall|j: int| 0 <= j < i ==> #[trigger] out@[j] == j,
        decreases top - i,
    {
        out.push(i);
        i += 1;
    }
    assert(out@ =~= first_indices(n as nat));
    List::from_vec(out)
}

/// Applies an edit of the mesh of a node.
pub fn apply_node_mesh<F: Fn(&ModifierStack, &VertexOverrides, &Table<MeshData>) -> MeshData>(
    nodes: &Vec<Node>,
    store: &mut MeshStore,
    cmd: NodeMeshCommand,
    sel: &VertexSelections,
    eval: &F,
) -> (r: Result<Vec<MeshCommand>, EditorError>)
    requires
        total(*eval),
    ensures
        node_mesh_step(
            *eval,
            sel@,
            forest(nodes@),
            old(store)@,
            cmd,
            final(store)@,
            as_seq(r),
        ),
{
    let node = match &cmd {
        NodeMeshCommand::PaintVerticesWhere { node, .. }
        | NodeMeshCommand::TransformVerticesWhere { node, .. }
        | NodeMeshCommand::DisplaceFromTexture { node, .. } => *node,
    };
    let (mesh, data) = match node_editable_mesh(nodes, store, node) {
        Ok(p) => p,
        Err(e) => {
            return match cmd {
                NodeMeshCommand::DisplaceFromTexture { .. } => Err(e),
                _ => {
                    let none: Vec<MeshCommand> = Vec::new();
                    assert(none@ =~= seq![]);
                    Ok(none)
                },
            };
        },
    };
    let empty = match &cmd {
        NodeMeshCommand::PaintVerticesWhere { indices, .. }
        | NodeMeshCommand::TransformVerticesWhere { indices, .. } => indices.is_empty(),
        NodeMeshCommand::DisplaceFromTexture { .. } => false,
    };
    if empty {
        let none: Vec<MeshCommand> = Vec::new();
        assert(none@ =~= seq![]);
        return Ok(none);
    }
    let low = match cmd {
        NodeMeshCommand::PaintVerticesWhere { indices, color, .. } => MeshCommand::PaintVertexColors {
            mesh,
            pick: Pick { selection: None, indices },
            color,
        },
        NodeMeshCommand::TransformVerticesWhere {
            indices,
            targets,
            ..
        } => MeshCommand::SoftTransformVertices {
            mesh,
            pick: Pick { selection: None, indices },
            targets,
        },
        NodeMeshCommand::DisplaceFromTexture { targets, .. } => MeshCommand::SetVertexPositions {
            mesh,
            pick: Pick { selection: None, indices: make_first_indices(data.positions.len()) },
            positions: targets,
        },
    };
    assert(lowered(cmd, mesh, data.positions@.len(), low));
    store.apply_mesh(low, sel, eval)
}

/// Frees a mesh from its rig: the node becomes an editable mesh with the
/// geometry of the bind pose. Hands back what restores the rig; nothing happens
/// where the node is not skinned or its bind pose is not known.
pub fn drop_skinning(
    nodes: &mut Vec<Node>,
    store: &mut MeshStore,
    node: NodeId,
    bind_pose: Option<MeshData>,
) -> (r: Option<NodeCommand>)
    ensures
        ({
            let f = forest(old(nodes)@);
            let g = forest(final(nodes)@);
            let v = old(store)@;
            let w = final(store)@;
            match find(f, node) {
                Some(t) => match t.data.kind {
                    NodeKind::SkinnedMesh { skin, palette, shadow, lod } => match bind_pose {
                        Some(data) => {
                            let mesh = AssetId(node.0);
                            &&& g == put(
                                f,
                                node,
                                NodeData {
                                    kind: NodeKind::Mesh { mesh, palette, shadow, lod },
                                    ..t.data
                                },
                            )
                            &&& w.geometry == v.geometry.insert(
                                mesh.0,
                                MeshData { tangents: None, ..data },
                            )
                            &&& w.assets == v.assets.insert(mesh.0, w.assets[mesh.0])
                            &&& mesh_def(w, mesh) matches Some(d) && is_imported_mesh(
                                d,
                                mesh,
                                t.data.name@,
                                skin.source,
                            )
                            &&& r == Some(
                                NodeCommand { node, edit: NodeEdit::SetKind(t.data.kind) },
                            )
                        },
                        None => g == f && w == v && r is None,
                    },
                    _ => g == f && w == v && r is None,
                },
                None => g == f && w == v && r is None,
            }
        }),
{
    let data = match find_by_id(nodes, node) {
        Some(n) => n.data.same(),
        None => {
            return None;
        },
    };
    let prev = data.kind.same();
    match data.kind {
        NodeKind::SkinnedMesh { skin, palette, shadow, lod } => match bind_pose {
            Some(geometry) => {
                let mesh = mint_imported_mesh(store, node, &data.name, geometry, None, skin.source);
                let next = NodeData {
                    name: data.name,
                    transform: data.transform,
                    kind: NodeKind::Mesh { mesh, palette, shadow, lod },
                    visible: data.visible,
                    locked: data.locked,
                    prefab: data.prefab,
                };
                put_data(nodes, node, next);
                Some(NodeCommand { node, edit: NodeEdit::SetKind(prev) })
            },
            None => None,
        },
        _ => None,
    }
}

/// A split of a mesh, with what the caller extracted from the geometry of the
/// node for the picked vertices, and what was left of it.
pub struct Split {
    pub node: NodeId,
    pub pick: Pick,
    pub new_node: NodeId,
    pub keep_remainder: bool,
    pub extracted: MeshData,
    pub remainder: MeshData,
}

/// What a split did.
pub enum SplitDone {
    Nothing,
    /// The new node was added; the source stayed as it was.
    Added,
    /// The new node was added and the source cut down; these commands restore
    /// the source, in this order.
    Cut(Vec<MeshCommand>),
}

/// Whether a split goes through: the node's mesh can be edited, vertices are
/// picked, they make up at least one face, and the new id is free.
pub open spec fn splits(
    f: Seq<Tree>,
    v: StoreView,
    sel: SelectionsView,
    s: Split,
) -> bool {
    &&& editable_mesh(f, v.geometry, s.node) is Ok
    &&& resolved(sel, s.pick.selection, s.pick.indices@) matches Ok(p) && p.len() > 0
    &&& s.extracted.positions@.len() > 0
    &&& !within(f, s.new_node)
}

/// Whether a definition is that of a mesh split off another.
pub open spec fn is_split_mesh(d: MeshDef, id: AssetId) -> bool {
    &&& d.label@ == "Separated"@
    &&& d.source == Some(CapturedSource::Editable)
    &&& d.editable
    &&& d.stack.is_bare_capture(id)
    &&& d.overrides.blank()
}

/// Whether a node is the one that a split adds: named, placed and painted like
/// the source.
pub open spec fn is_split_node(n: Tree, s: Split, src: NodeData) -> bool {
    &&& is_plain_node(n, s.new_node, "Separated"@, src.transform)
    &&& match n.data.kind {
        NodeKind::Mesh { mesh, palette, shadow, lod } => {
            &&& mesh == AssetId(s.new_node.0)
            &&& Some(palette) == src.kind.palette_of()
            &&& shadow == ShadowFlags::standard()
            &&& lod == LodSettings::standard()
        },
        _ => false,
    }
}

/// The store after the new mesh is added.
pub open spec fn split_added(v: StoreView, s: Split, w: StoreView) -> bool {
    let id = AssetId(s.new_node.0);
    &&& w.assets == v.assets.insert(id.0, w.assets[id.0])
    &&& w.geometry == v.geometry.insert(id.0, s.extracted)
    &&& w.assets[id.0].is_plain(w.assets[id.0].source, seq![])
    &&& mesh_def(w, id) matches Some(d) && is_split_mesh(d, id)
}

/// The store after the source is cut down to the remainder.
pub open spec fn split_cut(v: StoreView, mesh: AssetId, remainder: MeshData, w: StoreView) -> bool {
    &&& w.geometry == v.geometry.insert(mesh.0, remainder)
    &&& match mesh_def(v, mesh) {
        Some(d) => {
            let d2 = mesh_def(w, mesh)->0;
            &&& mesh_def(w, mesh) is Some
            &&& d2 == (MeshDef {
                stack: d2.stack,
                overrides: d2.overrides,
                editable: true,
                ..d
            })
            &&& d2.stack.is_bare_capture(mesh)
            &&& d2.overrides.blank()
            &&& w.assets == with_def(v, mesh, d2).assets
        },
        None => w.assets == v.assets,
    }
}

/// The commands that restore the source of a split: the whole mesh as it was, or its
/// geometry alone where it is of no mesh asset.
pub open spec fn split_restores(v: StoreView, mesh: AssetId) -> Seq<MeshCommand> {
    match mesh_def(v, mesh) {
        Some(_) => seq![restore_of(v, mesh)],
        None => seq![
            MeshCommand::SetMeshData { mesh, data: v.geometry[mesh.0], allow_empty: true },
        ],
    }
}

fn cut_source(store: &mut MeshStore, mesh: AssetId, remainder: MeshData) -> (r: Vec<MeshCommand>)
    requires
        old(store)@.geometry.contains_key(mesh.0),
    ensures
        split_cut(old(store)@, mesh, remainder, final(store)@),
        r@ == split_restores(old(store)@, mesh),
{
    let ghost v = store@;
    let mut inv: Vec<MeshCommand> = Vec::new();
    let former = match store.find_def(mesh) {
        Some(d) => Some(d.same()),
        None => None,
    };
    if former.is_some() {
        inv.push(store.restoring(mesh));
    } else if let Some(g) = store.geometry.get(mesh.0) {
        inv.push(MeshCommand::SetMeshData { mesh, data: g.same(), allow_empty: true });
    }
    assert(inv@ =~= split_restores(v, mesh));
    if let Some(d) = former {
        let mut entry = match store.assets.get(mesh.0) {
            Some(e) => e.same(),
            None => AssetEntry::new(AssetSource::Mesh(d.same())),
        };
        entry.source = AssetSource::Mesh(
            MeshDef {
                label: d.label,
                source: d.source,
                editable: true,
                stack: ModifierStack::bare_capture(mesh),
                overrides: VertexOverrides::none(),
            },
        );
        store.assets.insert(mesh.0, entry);
    }
    store.geometry.insert(mesh.0, remainder);
    inv
}

/// Splits picked faces off a mesh into a node of their own, beside the source
/// and painted like it. Where the remainder is kept the source loses the faces.
pub fn separate_mesh(
    nodes: &mut Vec<Node>,
    store: &mut MeshStore,
    s: Split,
    sel: &VertexSelections,
) -> (r: Result<SplitDone, EditorError>)
    ensures
        ({
            let f = forest(old(nodes)@);
            let g = forest(final(nodes)@);
            let v = old(store)@;
            let w = final(store)@;
            match editable_mesh(f, v.geometry, s.node) {
                Err(_) => g == f && w == v && (r matches Ok(done) && done is Nothing),
                Ok(mesh) => match resolved(sel@, s.pick.selection, s.pick.indices@) {
                    Err(e) => g == f && w == v && r == Err::<SplitDone, EditorError>(e),
                    Ok(_) => if splits(f, v, sel@, s) {
                        &&& exists|n: Tree|
                            is_split_node(n, s, find(f, s.node)->0.data) && g == #[trigger] added(
                                f,
                                parent_of(f, s.node),
                                None,
                                n,
                            )
                        &&& if s.keep_remainder {
                            r matches Ok(SplitDone::Cut(inv)) && exists|m: StoreView| #[trigger]
                                split_added(v, s, m) && split_cut(m, mesh, s.remainder, w)
                                    && inv@ == split_restores(m, mesh)
                        } else {
                            (r matches Ok(done) && done is Added) && split_added(v, s, w)
                        }
                    } else {
                        g == f && w == v && (r matches Ok(done) && done is Nothing)
                    },
                },
            }
        }),
{
    let ghost f = forest(nodes@);
    let ghost v = store@;
    let (mesh, _) = match node_editable_mesh(nodes, store, s.node) {
        Ok(p) => p,
        Err(_) => {
            return Ok(SplitDone::Nothing);
        },
    };
    let picked = match sel.resolve_vertex_selection_or(s.pick.selection, s.pick.indices.clone()) {
        Ok(l) => l,
        Err(e) => {
            return Err(e);
        },
    };
    if picked.is_empty() || s.extracted.positions.is_empty() || has_node(nodes, s.new_node) {
        return Ok(SplitDone::Nothing);
    }
    let (transform, palette) = match find_by_id(nodes, s.node) {
        Some(n) => match n.data.kind.palette() {
            Some(p) => (n.data.transform, p.same()),
            None => {
                return Ok(SplitDone::Nothing);
            },
        },
        None => {
            return Ok(SplitDone::Nothing);
        },
    };
    proof {
        lemma_find(f, s.node);
    }
    let parent = match find_place(nodes, s.node) {
        Some((p, _)) => p,
        None => {
            return Ok(SplitDone::Nothing);
        },
    };
    let id = AssetId(s.new_node.0);
    let n = plain_node(
        s.new_node,
        "Separated",
        transform,
        NodeKind::Mesh {
            mesh: id,
            palette,
            shadow: ShadowFlags::standard(),
            lod: LodSettings::standard(),
        },
    );
    let ghost t = n.model();
    proof {
        lemma_place_is_within(f, s.node, None);
        assert(is_split_node(t, s, find(f, s.node)->0.data));
    }
    insert_tree(nodes, parent, None, n);
    assert(forest(nodes@) == added(f, parent_of(f, s.node), None, t));
    store.geometry.insert(id.0, s.extracted);
    let def = MeshDef {
        label: "Separated".to_owned(),
        source: Some(CapturedSource::Editable),
        editable: true,
        stack: ModifierStack::bare_capture(id),
        overrides: VertexOverrides::none(),
    };
    store.assets.insert(id.0, AssetEntry::new(AssetSource::Mesh(def)));
    assert(split_added(v, s, store@));
    if s.keep_remainder {
        Ok(SplitDone::Cut(cut_source(store, mesh, s.remainder)))
    } else {
        Ok(SplitDone::Added)
    }
}

} // verus!
