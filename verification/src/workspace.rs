//! Everything a command can change, and what each command does to it. An edit
//! hands back the commands that take it back, in the order in which they are to
//! be applied.
use crate::asset_edit::{apply_asset, asset_step, purge_unused_assets, AssetCommand};
use crate::assets::{AssetEntry, AssetSource, MeshData, ModifierStack, VertexOverrides};
use crate::buffer_cache::BufferCache;
use crate::clips::{clip_shapes, layer_shapes};
use crate::command::EditorCommand;
use crate::custom_material::{find_material, is_material, material_at};
use crate::errors::EditorError;
use crate::ids::{AssetId, NodeId};
use crate::library_edit::{
    edited_id, library_step, LibraryCommand, LibraryView, MaterialLibrary, ValidKeys,
};
use crate::list::{copied_row, reversed, List, Same};
use crate::mesh_edit::{mesh_step, total, MeshCommand, MeshStore, StoreView};
use crate::mixer::{mixer_after, mixer_inverse, mixer_refused, transport_step};
use crate::node::{NodeKind, ShadowFlags};
use crate::node_edit::{
    apply_node, copies_onto, copy_material_instance, node_step, NodeCommand, NodeEdit, NodeReply,
};
use crate::palette::{MaterialDef, Palette};
use crate::reachable::{in_use, Json};
use crate::reseed::{reseed_inline_for_material, scene_followed};
use crate::scene_edit::{
    apply_node_mesh, drop_skinning, editable_mesh, insert_node, insert_step, is_plain_node,
    is_split_node, node_editable_mesh, node_mesh_step, separate_mesh, split_added, split_cut, split_restores, splits,
    Inserted, InsertSpec, NodeMeshCommand, Split, SplitDone,
};
use crate::selections::{resolved, SelectionsView, VertexSelections};
use crate::session::{view_after, Session, SessionView};
use crate::skin::{former_entries, reweighted, SkinStream, SkinView, SkinWeightEntry};
use crate::table::Table;
use crate::timeline::{
    clip_after, clip_inverse, clip_refused, track_step, ClipCommand, MixerCommand, Timeline,
    TimelineView, TrackCommand, TransportCommand,
};
use crate::tree::{
    added, copied_nodes, find, forest, insert_tree, place, put, removed, within, Node, NodeData,
    Tree,
};
use crate::tree_edit::{
    delete_node, duplicate, duplicate_step, former_poses, movable, own_ids, parent_of,
    pruned, reparent, reset_to_bind_pose, rested, without_id,
};
use crate::tree_laws::moved;
use crate::values::{F64, Trs};
use crate::world::{world_after, world_inverse, EnvironmentConfig, World, WorldCommand};
use vstd::prelude::*;

verus! {

/// Everything a command can change.
pub struct Workspace {
    pub nodes: Vec<Node>,
    pub store: MeshStore,
    pub library: MaterialLibrary,
    pub timeline: Timeline,
    pub world: World,
    /// The joint weights of the skinned nodes.
    pub skins: Table<SkinStream>,
    pub session: Session,
    /// The rest poses of the joints that were imported.
    pub rest: Table<Trs>,
    /// The words of the buffer assets.
    pub buffers: BufferCache,
    pub selections: VertexSelections,
    pub valid: ValidKeys,
    pub project_name: String,
    pub missing_assets: Vec<AssetId>,
    /// Whether there is something to save.
    pub dirty: bool,
    /// The environment as it was last saved or loaded.
    pub env_saved_baseline: EnvironmentConfig,
    /// Counts changes of which controls a node has.
    pub structure_rev: u64,
    /// Counts edits that came from elsewhere than the controls themselves.
    pub external_rev: u64,
    /// Counts edits of what is animated.
    pub anim_revision: u32,
    /// Counts edits of geometry.
    pub mesh_revision: u32,
    /// Counts edits of the scene, its assets and its materials.
    pub scene_revision: u64,
}

/// A workspace as a value.
#[verifier::ext_equal]
pub struct WorkView {
    pub nodes: Seq<Tree>,
    pub store: StoreView,
    pub library: LibraryView,
    pub timeline: TimelineView,
    pub world: World,
    pub skins: Map<u128, SkinView>,
    pub session: SessionView,
    pub rest: Map<u128, Trs>,
    pub buffers: Map<u128, Seq<u32>>,
    pub selections: SelectionsView,
    pub includes: Seq<&'static str>,
    pub inputs: Seq<&'static str>,
    pub project_name: Seq<char>,
    pub missing_assets: Seq<AssetId>,
    pub dirty: bool,
    pub baseline: EnvironmentConfig,
    pub structure_rev: u64,
    pub external_rev: u64,
    pub anim_revision: u32,
    pub mesh_revision: u32,
    pub scene_revision: u64,
}

/// The weights of each node as values.
pub open spec fn skin_views(m: Map<u128, SkinStream>) -> Map<u128, SkinView> {
    Map::new(|k: u128| m.contains_key(k), |k: u128| m[k]@)
}

impl View for Workspace {
    type V = WorkView;

    open spec fn view(&self) -> WorkView {
        WorkView {
            nodes: forest(self.nodes@),
            store: self.store@,
            library: self.library@,
            timeline: self.timeline@,
            world: self.world,
            skins: skin_views(self.skins@),
            session: self.session@,
            rest: self.rest@,
            buffers: self.buffers@,
            selections: self.selections@,
            includes: self.valid.includes@,
            inputs: self.valid.inputs@,
            project_name: self.project_name@,
            missing_assets: self.missing_assets@,
            dirty: self.dirty,
            baseline: self.env_saved_baseline,
            structure_rev: self.structure_rev,
            external_rev: self.external_rev,
            anim_revision: self.anim_revision,
            mesh_revision: self.mesh_revision,
            scene_revision: self.scene_revision,
        }
    }
}

/// A result whose commands are taken as a sequence.
pub open spec fn as_row(r: Result<Vec<EditorCommand>, EditorError>) -> Result<
    Seq<EditorCommand>,
    EditorError,
> {
    match r {
        Ok(row) => Ok(row@),
        Err(e) => Err(e),
    }
}

/// A counter after a change, or as it was.
pub open spec fn counted64(n: u64, on: bool) -> u64 {
    if !on {
        n
    } else if n == u64::MAX {
        0
    } else {
        (n + 1) as u64
    }
}

/// A counter after a change, or as it was.
pub open spec fn counted32(n: u32, on: bool) -> u32 {
    if !on {
        n
    } else if n == u32::MAX {
        0
    } else {
        (n + 1) as u32
    }
}

/// Counts a change.
pub fn count64(n: u64, on: bool) -> (r: u64)
    ensures
        r == counted64(n, on),
{
    if on {
        n.wrapping_add(1)
    } else {
        n
    }
}

/// Counts a change.
pub fn count32(n: u32, on: bool) -> (r: u32)
    ensures
        r == counted32(n, on),
{
    if on {
        n.wrapping_add(1)
    } else {
        n
    }
}

pub open spec fn node_row(c: Option<NodeCommand>) -> Seq<EditorCommand> {
    match c {
        Some(c) => seq![EditorCommand::Node(c)],
        None => seq![],
    }
}

pub open spec fn asset_row(c: Option<AssetCommand>) -> Seq<EditorCommand> {
    match c {
        Some(c) => seq![EditorCommand::Asset(c)],
        None => seq![],
    }
}

pub open spec fn library_row(c: Option<LibraryCommand>) -> Seq<EditorCommand> {
    match c {
        Some(c) => seq![EditorCommand::Library(c)],
        None => seq![],
    }
}

pub open spec fn world_row(c: Option<WorldCommand>) -> Seq<EditorCommand> {
    match c {
        Some(c) => seq![EditorCommand::World(c)],
        None => seq![],
    }
}

pub open spec fn clip_row(c: Option<ClipCommand>) -> Seq<EditorCommand> {
    match c {
        Some(c) => seq![EditorCommand::Clip(c)],
        None => seq![],
    }
}

pub open spec fn track_row(c: Option<TrackCommand>) -> Seq<EditorCommand> {
    match c {
        Some(c) => seq![EditorCommand::Track(c)],
        None => seq![],
    }
}

pub open spec fn mixer_row(c: Option<MixerCommand>) -> Seq<EditorCommand> {
    match c {
        Some(c) => seq![EditorCommand::Mixer(c)],
        None => seq![],
    }
}

pub open spec fn mesh_row(row: Seq<MeshCommand>) -> Seq<EditorCommand> {
    Seq::new(row.len(), |i: int| EditorCommand::Mesh(row[i]))
}

pub open spec fn assets_row(row: Seq<AssetCommand>) -> Seq<EditorCommand> {
    Seq::new(row.len(), |i: int| EditorCommand::Asset(row[i]))
}

/// The commands that put poses back, the last one first.
pub open spec fn pose_row(poses: Seq<(NodeId, Trs)>) -> Seq<EditorCommand> {
    Seq::new(
        poses.len(),
        |i: int|
            EditorCommand::Node(
                NodeCommand {
                    node: poses[poses.len() - 1 - i].0,
                    edit: NodeEdit::SetTransform(poses[poses.len() - 1 - i].1),
                },
            ),
    )
}

/// The commands that delete tracks, the last one first.
pub open spec fn untrack_row(at: Seq<(AssetId, usize)>) -> Seq<EditorCommand> {
    Seq::new(
        at.len(),
        |i: int|
            EditorCommand::Track(
                TrackCommand::DeleteTrack {
                    clip: at[at.len() - 1 - i].0,
                    track: at[at.len() - 1 - i].1,
                },
            ),
    )
}

/// Nothing changes and there is nothing to take back.
pub open spec fn idle(
    v: WorkView,
    w: WorkView,
    r: Result<Seq<EditorCommand>, EditorError>,
) -> bool {
    w == v && r == Ok::<Seq<EditorCommand>, EditorError>(seq![])
}

/// Nothing changes, for the reason given.
pub open spec fn refused(
    v: WorkView,
    w: WorkView,
    r: Result<Seq<EditorCommand>, EditorError>,
    e: EditorError,
) -> bool {
    w == v && r == Err::<Seq<EditorCommand>, EditorError>(e)
}

/// An edit of a node.
pub open spec fn node_work(
    v: WorkView,
    c: NodeCommand,
    w: WorkView,
    r: Result<Seq<EditorCommand>, EditorError>,
) -> bool {
    match r {
        Err(e) => w == v && node_step(v.nodes, c, v.library.materials, v.nodes, Err(e)),
        Ok(row) => exists|reply: NodeReply| #[trigger]
            node_step(v.nodes, c, v.library.materials, w.nodes, Ok(reply)) && row == node_row(
                reply.inverse,
            ) && w == (WorkView {
                nodes: w.nodes,
                structure_rev: counted64(v.structure_rev, reply.restructured),
                anim_revision: counted32(v.anim_revision, reply.relit),
                ..v
            }),
    }
}

/// A copy of the settings of a material instance.
pub open spec fn copy_work(
    v: WorkView,
    from: NodeId,
    to: NodeId,
    w: WorkView,
    r: Result<Seq<EditorCommand>, EditorError>,
) -> bool {
    if copies_onto(find(v.nodes, from), find(v.nodes, to)) {
        let t = find(v.nodes, to)->0;
        let k2 = find(w.nodes, to)->0.data.kind;
        &&& k2.replaces_current(t.data.kind, find(v.nodes, from)->0.data.kind.current())
        &&& w == (WorkView {
            nodes: put(v.nodes, to, NodeData { kind: k2, ..t.data }),
            structure_rev: counted64(v.structure_rev, true),
            ..v
        })
        &&& r == Ok::<Seq<EditorCommand>, EditorError>(
            seq![
                EditorCommand::Node(
                    NodeCommand { node: to, edit: NodeEdit::SetKind(t.data.kind) },
                ),
            ],
        )
    } else {
        idle(v, w, r)
    }
}

/// A copy of a node. The copy is selected, and drives nothing that the source
/// does not.
pub open spec fn duplicate_work(
    v: WorkView,
    id: NodeId,
    new_id: NodeId,
    fresh: Seq<NodeId>,
    w: WorkView,
    r: Result<Seq<EditorCommand>, EditorError>,
) -> bool {
    match find(v.nodes, id) {
        None => refused(v, w, r, EditorError::TargetNotFound),
        Some(t) => if fresh.len() < crate::tree::ids(t.children).len() {
            refused(v, w, r, EditorError::TooFewIds)
        } else {
            exists|at: Seq<(AssetId, usize)>| #[trigger]
                duplicate_step(
                    v.nodes,
                    v.timeline,
                    id,
                    new_id,
                    fresh,
                    w.nodes,
                    w.timeline,
                    at,
                ) && w == (WorkView {
                    nodes: w.nodes,
                    timeline: w.timeline,
                    session: SessionView { selected: seq![new_id], ..v.session },
                    anim_revision: counted32(v.anim_revision, at.len() > 0),
                    ..v
                }) && r == Ok::<Seq<EditorCommand>, EditorError>(
                    untrack_row(at).push(EditorCommand::Delete { id: new_id }),
                )
        },
    }
}

/// A move of a node below another parent.
pub open spec fn reparent_work(
    v: WorkView,
    id: NodeId,
    new_parent: Option<NodeId>,
    index: Option<usize>,
    w: WorkView,
    r: Result<Seq<EditorCommand>, EditorError>,
) -> bool {
    if movable(v.nodes, id, new_parent) {
        &&& w == (WorkView { nodes: moved(v.nodes, id, new_parent, index), ..v })
        &&& r matches Ok(row) && row.len() == 1 && (row[0] matches EditorCommand::Reparent {
            id: i,
            new_parent: p,
            index: Some(k),
        } && i == id && place(v.nodes, id, None) == Some((p, k as int)))
    } else {
        idle(v, w, r)
    }
}

/// What takes an addition back.
pub open spec fn insert_row(id: NodeId, done: Inserted) -> Seq<EditorCommand> {
    match done {
        Inserted::Nothing => seq![],
        Inserted::Node => seq![EditorCommand::Delete { id }],
        Inserted::NodeAndMesh => seq![
            EditorCommand::Delete { id },
            EditorCommand::Asset(AssetCommand::DeleteAsset { id: AssetId(id.0) }),
        ],
    }
}

/// An addition of a node.
pub open spec fn insert_work<
    F: Fn(&ModifierStack, &VertexOverrides, &Table<MeshData>) -> MeshData,
>(
    eval: F,
    v: WorkView,
    id: NodeId,
    spec: InsertSpec,
    parent: Option<NodeId>,
    w: WorkView,
    r: Result<Seq<EditorCommand>, EditorError>,
) -> bool {
    exists|done: Inserted| #[trigger]
        insert_step(eval, v.nodes, v.store, id, spec, parent, w.nodes, w.store, done) && w == (
        WorkView { nodes: w.nodes, store: w.store, ..v }) && r == Ok::<
            Seq<EditorCommand>,
            EditorError,
        >(insert_row(id, done))
}

/// An addition of a node with everything below it.
pub open spec fn insert_tree_work(
    v: WorkView,
    t: Tree,
    parent: Option<NodeId>,
    index: Option<usize>,
    w: WorkView,
    r: Result<Seq<EditorCommand>, EditorError>,
) -> bool {
    if parent matches Some(p) ==> within(v.nodes, p) {
        &&& w == (WorkView { nodes: added(v.nodes, parent, index, t), ..v })
        &&& r == Ok::<Seq<EditorCommand>, EditorError>(seq![EditorCommand::Delete { id: t.id }])
    } else {
        idle(v, w, r)
    }
}

/// A deletion of a node with everything below it.
pub open spec fn delete_work(
    v: WorkView,
    id: NodeId,
    w: WorkView,
    r: Result<Seq<EditorCommand>, EditorError>,
) -> bool {
    match find(v.nodes, id) {
        None => refused(v, w, r, EditorError::TargetNotFound),
        Some(t) => {
            let rest = removed(v.nodes, id);
            let left = pruned(v.timeline, rest);
            &&& w == (WorkView {
                nodes: rest,
                timeline: left,
                session: SessionView {
                    selected: without_id(v.session.selected, id),
                    ..v.session
                },
                dirty: v.dirty || left.clips.len() < v.timeline.clips.len(),
                ..v
            })
            &&& r matches Ok(row) && row.len() == 1 && (row[0] matches EditorCommand::InsertTree {
                tree,
                parent,
                index: Some(k),
            } && tree.model() == t && place(v.nodes, id, None) == Some((parent, k as int)))
        },
    }
}

/// A return of a rig to its rest pose.
pub open spec fn reset_work(
    v: WorkView,
    id: NodeId,
    w: WorkView,
    r: Result<Seq<EditorCommand>, EditorError>,
) -> bool {
    match find(v.nodes, id) {
        None => refused(v, w, r, EditorError::NoNode(id)),
        Some(t) => {
            &&& w == (WorkView { nodes: rested(v.nodes, own_ids(t), v.rest), ..v })
            &&& r == Ok::<Seq<EditorCommand>, EditorError>(
                pose_row(former_poses(v.nodes, own_ids(t), v.rest)),
            )
        },
    }
}

/// Whether an edit of the asset table fetched something that is now there.
pub open spec fn fetched(c: AssetCommand, inv: Option<AssetCommand>) -> bool {
    (c is ImportTextureFromUrl || c is ImportKtxEnvFromUrl) && inv is Some
}

/// An edit of the asset table.
pub open spec fn asset_work(
    v: WorkView,
    c: AssetCommand,
    w: WorkView,
    r: Result<Seq<EditorCommand>, EditorError>,
) -> bool {
    match r {
        Err(e) => w == v && asset_step(
            v.store.assets,
            v.session.asset_selection,
            c,
            v.store.assets,
            v.session.asset_selection,
            Err(e),
        ),
        Ok(row) => exists|inv: Option<AssetCommand>| #[trigger]
            asset_step(
                v.store.assets,
                v.session.asset_selection,
                c,
                w.store.assets,
                w.session.asset_selection,
                Ok(inv),
            ) && row == asset_row(inv) && w == (WorkView {
                store: StoreView { assets: w.store.assets, ..v.store },
                session: SessionView { asset_selection: w.session.asset_selection, ..v.session },
                dirty: v.dirty || fetched(c, inv),
                ..v
            }),
    }
}

/// Whether a row of commands restores the assets that are gone, one each.
pub open spec fn restores(
    a: Map<u128, AssetEntry>,
    b: Map<u128, AssetEntry>,
    row: Seq<AssetCommand>,
) -> bool {
    &&& forall|i: int|
        0 <= i < row.len() ==> (#[trigger] row[i] matches AssetCommand::RestoreAsset { id, entry }
            && a.contains_key(id.0) && entry == a[id.0] && !b.contains_key(id.0))
    &&& forall|k: u128|
        a.contains_key(k) && !#[trigger] b.contains_key(k) ==> exists|i: int|
            0 <= i < row.len() && #[trigger] row[i] == (AssetCommand::RestoreAsset {
                id: AssetId(k),
                entry: a[k],
            })
}

/// The assets that are in use.
pub open spec fn purged(
    a: Map<u128, AssetEntry>,
    roots: Seq<Json>,
    docs: Map<u128, Json>,
) -> Map<u128, AssetEntry> {
    Map::new(|k: u128| a.contains_key(k) && in_use(roots, docs, k), |k: u128| a[k])
}

/// A removal of every asset that is not in use.
pub open spec fn purge_work(
    v: WorkView,
    roots: Seq<Json>,
    docs: Map<u128, Json>,
    w: WorkView,
    r: Result<Seq<EditorCommand>, EditorError>,
) -> bool {
    let a = v.store.assets;
    let b = purged(a, roots, docs);
    exists|row: Seq<AssetCommand>| #[trigger]
        restores(a, b, row) && r == Ok::<Seq<EditorCommand>, EditorError>(assets_row(row)) && w == (
        WorkView {
            store: StoreView { assets: b, ..v.store },
            session: SessionView {
                asset_selection: match v.session.asset_selection {
                    Some(s) => if a.contains_key(s.0) && !in_use(roots, docs, s.0) {
                        None
                    } else {
                        Some(s)
                    },
                    None => None,
                },
                ..v.session
            },
            dirty: v.dirty || row.len() > 0,
            ..v
        })
}

/// A mesh freed from its rig.
pub open spec fn drop_work(
    v: WorkView,
    node: NodeId,
    bind_pose: Option<MeshData>,
    w: WorkView,
    r: Result<Seq<EditorCommand>, EditorError>,
) -> bool {
    match find(v.nodes, node) {
        Some(t) => match (t.data.kind, bind_pose) {
            (NodeKind::SkinnedMesh { skin, palette, shadow, lod }, Some(data)) => {
                let mesh = AssetId(node.0);
                &&& w == (WorkView {
                    nodes: put(
                        v.nodes,
                        node,
                        NodeData { kind: NodeKind::Mesh { mesh, palette, shadow, lod }, ..t.data },
                    ),
                    store: StoreView {
                        assets: v.store.assets.insert(mesh.0, w.store.assets[mesh.0]),
                        geometry: v.store.geometry.insert(
                            mesh.0,
                            MeshData { tangents: None, ..data },
                        ),
                    },
                    structure_rev: counted64(v.structure_rev, true),
                    dirty: true,
                    ..v
                })
                &&& crate::mesh_edit::mesh_def(w.store, mesh) matches Some(d)
                    && crate::asset_edit::is_imported_mesh(d, mesh, t.data.name@, skin.source)
                &&& r == Ok::<Seq<EditorCommand>, EditorError>(
                    seq![
                        EditorCommand::Node(
                            NodeCommand { node, edit: NodeEdit::SetKind(t.data.kind) },
                        ),
                    ],
                )
            },
            _ => idle(v, w, r),
        },
        None => idle(v, w, r),
    }
}

/// An edit of meshes.
pub open spec fn mesh_work<
    F: Fn(&ModifierStack, &VertexOverrides, &Table<MeshData>) -> MeshData,
>(
    eval: F,
    v: WorkView,
    c: MeshCommand,
    w: WorkView,
    r: Result<Seq<EditorCommand>, EditorError>,
) -> bool {
    match r {
        Err(e) => w == v && mesh_step(eval, v.selections, v.store, c, v.store, Err(e)),
        Ok(row) => w == (WorkView { store: w.store, ..v }) && exists|inv: Seq<MeshCommand>|
            #[trigger]
            mesh_step(eval, v.selections, v.store, c, w.store, Ok(inv)) && row == mesh_row(inv),
    }
}

/// An edit of the mesh of a node.
pub open spec fn node_mesh_work<
    F: Fn(&ModifierStack, &VertexOverrides, &Table<MeshData>) -> MeshData,
>(
    eval: F,
    v: WorkView,
    c: NodeMeshCommand,
    w: WorkView,
    r: Result<Seq<EditorCommand>, EditorError>,
) -> bool {
    match r {
        Err(e) => w == v && node_mesh_step(
            eval,
            v.selections,
            v.nodes,
            v.store,
            c,
            v.store,
            Err(e),
        ),
        Ok(row) => w == (WorkView { store: w.store, ..v }) && exists|inv: Seq<MeshCommand>|
            #[trigger]
            node_mesh_step(eval, v.selections, v.nodes, v.store, c, w.store, Ok(inv)) && row
                == mesh_row(inv),
    }
}

/// What takes a split back: the new node and its mesh go, then the source is
/// restored.
pub open spec fn split_row(s: Split, inv: Seq<MeshCommand>) -> Seq<EditorCommand> {
    seq![
        EditorCommand::Delete { id: s.new_node },
        EditorCommand::Asset(AssetCommand::DeleteAsset { id: AssetId(s.new_node.0) }),
    ] + mesh_row(inv)
}

/// A split of a mesh.
pub open spec fn split_work(
    v: WorkView,
    s: Split,
    w: WorkView,
    r: Result<Seq<EditorCommand>, EditorError>,
) -> bool {
    match editable_mesh(v.nodes, v.store.geometry, s.node) {
        Err(_) => idle(v, w, r),
        Ok(mesh) => match resolved(v.selections, s.pick.selection, s.pick.indices@) {
            Err(e) => refused(v, w, r, e),
            Ok(_) => if splits(v.nodes, v.store, v.selections, s) {
                &&& exists|n: Tree|
                    is_split_node(n, s, find(v.nodes, s.node)->0.data) && w == (WorkView {
                        nodes: #[trigger] added(v.nodes, parent_of(v.nodes, s.node), None, n),
                        store: w.store,
                        ..v
                    })
                &&& if s.keep_remainder {
                    exists|m: StoreView| #[trigger]
                        split_added(v.store, s, m) && split_cut(m, mesh, s.remainder, w.store)
                            && r == Ok::<Seq<EditorCommand>, EditorError>(
                            split_row(s, split_restores(m, mesh)),
                        )
                } else {
                    split_added(v.store, s, w.store) && r == Ok::<Seq<EditorCommand>, EditorError>(
                        split_row(s, seq![]),
                    )
                }
            } else {
                idle(v, w, r)
            },
        },
    }
}

/// An edit of the joint weights of a node.
pub open spec fn skin_work(
    v: WorkView,
    node: NodeId,
    entries: Seq<SkinWeightEntry>,
    w: WorkView,
    r: Result<Seq<EditorCommand>, EditorError>,
) -> bool {
    if !v.skins.contains_key(node.0) || former_entries(v.skins[node.0], entries).len() == 0 {
        idle(v, w, r)
    } else {
        let s = v.skins[node.0];
        &&& w == (WorkView {
            skins: v.skins.insert(node.0, SkinView { bytes: reweighted(s, entries), ..s }),
            dirty: true,
            ..v
        })
        &&& r matches Ok(row) && row.len() == 1 && (row[0] matches EditorCommand::SetSkinWeights {
            node: n,
            entries: back,
        } && n == node && back@ == former_entries(s, entries))
    }
}

/// Whether a kind shows the clusters of an asset, with no material assigned.
pub open spec fn is_cluster_mesh(k: NodeKind, asset: AssetId) -> bool {
    match k {
        NodeKind::ClusterMesh { source, palette, shadow } => source == asset
            && palette.variants@.len() == 0 && palette.selected is None && shadow
            == ShadowFlags::standard(),
        _ => false,
    }
}

/// An import of an asset of clusters.
pub open spec fn nanite_work(
    v: WorkView,
    node: NodeId,
    asset: AssetId,
    url: String,
    w: WorkView,
    r: Result<Seq<EditorCommand>, EditorError>,
) -> bool {
    &&& exists|n: Tree|
        is_plain_node(n, node, "Nanite Mesh"@, Trs::identity()) && is_cluster_mesh(
            n.data.kind,
            asset,
        ) && w == (WorkView {
            nodes: #[trigger] added(v.nodes, None, None, n),
            store: StoreView {
                assets: v.store.assets.insert(asset.0, w.store.assets[asset.0]),
                ..v.store
            },
            dirty: true,
            ..v
        })
    &&& w.store.assets[asset.0].is_plain(AssetSource::Url(url), seq![])
    &&& r == Ok::<Seq<EditorCommand>, EditorError>(seq![EditorCommand::Delete { id: node }])
}

/// Whether an edit of the library leaves something to save.
pub open spec fn library_marks(v: LibraryView, c: LibraryCommand) -> bool {
    match c {
        LibraryCommand::SetCurrentMaterial { .. } => false,
        LibraryCommand::AddCustomMaterial { id } => !v.has_material(id),
        LibraryCommand::AddBuiltinMaterial { id, .. } => !v.has_material(id),
        _ => true,
    }
}

/// Whether an edit of the library is one of a built-in definition.
pub open spec fn redefines(c: LibraryCommand) -> bool {
    c is UpdateBuiltinMaterial || c is SetBuiltinAlphaMode
}

/// Whether the nodes are what an edit of the library makes of them: the meshes that
/// render with a built-in material follow its definition.
pub open spec fn nodes_follow(v: WorkView, c: LibraryCommand, w: WorkView) -> bool {
    if redefines(c) {
        let id = edited_id(c)->0;
        scene_followed(
            v.nodes,
            id,
            v.library.material(id).builtin->0,
            w.library.materials[material_at(v.library.materials, id)].builtin->0,
            w.nodes,
        )
    } else {
        w.nodes == v.nodes
    }
}

/// An edit of the library.
pub open spec fn library_work(
    v: WorkView,
    c: LibraryCommand,
    w: WorkView,
    r: Result<Seq<EditorCommand>, EditorError>,
) -> bool {
    match r {
        Err(e) => w == v && library_step(v.library, c, v.includes, v.inputs, v.library, Err(e)),
        Ok(row) => w == (WorkView {
            nodes: w.nodes,
            library: w.library,
            structure_rev: counted64(v.structure_rev, redefines(c)),
            dirty: v.dirty || library_marks(v.library, c),
            ..v
        }) && nodes_follow(v, c, w) && exists|inv: Option<LibraryCommand>| #[trigger]
            library_step(v.library, c, v.includes, v.inputs, w.library, Ok(inv)) && row
                == library_row(inv),
    }
}

/// An edit of the world.
pub open spec fn world_work(
    v: WorkView,
    c: WorldCommand,
    w: WorkView,
    r: Result<Seq<EditorCommand>, EditorError>,
) -> bool {
    &&& w == (WorkView {
        world: world_after(v.world, c),
        dirty: v.dirty || c is SetPostProcess,
        ..v
    })
    &&& r == Ok::<Seq<EditorCommand>, EditorError>(world_row(world_inverse(v.world, c)))
}

/// Whether an edit of clips leaves something to save.
pub open spec fn clip_marks(v: TimelineView, c: ClipCommand) -> bool {
    match c {
        ClipCommand::SetCurrentClip { .. } => false,
        ClipCommand::DuplicateClip { id, .. } => v.has_clip(id),
        _ => !clip_refused(v, c),
    }
}

/// An edit of clips.
pub open spec fn clip_work(
    v: WorkView,
    c: ClipCommand,
    w: WorkView,
    r: Result<Seq<EditorCommand>, EditorError>,
) -> bool {
    &&& w == (WorkView {
        timeline: clip_after(v.timeline, c),
        anim_revision: counted32(v.anim_revision, c is SetCurrentClip),
        dirty: v.dirty || clip_marks(v.timeline, c),
        ..v
    })
    &&& match r {
        Err(e) => clip_refused(v.timeline, c) && e == EditorError::TargetNotFound,
        Ok(row) => !clip_refused(v.timeline, c) && exists|inv: Option<ClipCommand>| #[trigger]
            clip_inverse(v.timeline, c, inv) && row == clip_row(inv),
    }
}

/// An edit of tracks.
pub open spec fn track_work(
    v: WorkView,
    c: TrackCommand,
    w: WorkView,
    r: Result<Seq<EditorCommand>, EditorError>,
) -> bool {
    match r {
        Err(e) => w == v && track_step(
            v.timeline,
            c,
            v.nodes,
            v.library.materials,
            v.timeline,
            Err(e),
        ),
        Ok(row) => w == (WorkView {
            timeline: w.timeline,
            dirty: v.dirty || row.len() > 0,
            ..v
        }) && exists|inv: Option<TrackCommand>| #[trigger]
            track_step(v.timeline, c, v.nodes, v.library.materials, w.timeline, Ok(inv)) && row
                == track_row(inv),
    }
}

/// An edit of the mixer.
pub open spec fn mixer_work(
    v: WorkView,
    c: MixerCommand,
    w: WorkView,
    r: Result<Seq<EditorCommand>, EditorError>,
) -> bool {
    if mixer_refused(v.timeline, c) {
        refused(v, w, r, EditorError::TargetNotFound)
    } else {
        &&& r is Ok
        &&& w == (WorkView {
            timeline: mixer_after(v.timeline, c),
            dirty: v.dirty || r->Ok_0.len() > 0,
            ..v
        })
        &&& exists|inv: Option<MixerCommand>| #[trigger]
            mixer_inverse(v.timeline, c, inv) && r->Ok_0 == mixer_row(inv)
    }
}

/// A command of the transport.
pub open spec fn transport_work(
    v: WorkView,
    c: TransportCommand,
    w: WorkView,
    r: Result<Seq<EditorCommand>, EditorError>,
) -> bool {
    &&& transport_step(v.timeline, c, w.timeline)
    &&& w == (WorkView { timeline: w.timeline, ..v })
    &&& r == Ok::<Seq<EditorCommand>, EditorError>(seq![])
}

/// A new project: the light and nothing else, the world as it is by default, and
/// what the window shows besides the project as it was.
pub open spec fn new_project(v: WorkView, light: Tree) -> WorkView {
    WorkView {
        nodes: seq![light],
        store: StoreView { assets: Map::empty(), ..v.store },
        library: LibraryView { materials: seq![], current: None },
        timeline: TimelineView {
            clips: seq![],
            current_clip: None,
            layers: seq![],
            selection: None,
            solo_root: None,
            playhead: F64::zero(),
            playing: false,
            ..v.timeline
        },
        world: World { bundle_options: v.world.bundle_options, ..World::standard() },
        skins: Map::empty(),
        session: SessionView {
            selected: seq![],
            vertex_selection: None,
            asset_selection: None,
            ..v.session
        },
        buffers: Map::empty(),
        project_name: "untitled.awsm"@,
        missing_assets: seq![],
        dirty: false,
        baseline: EnvironmentConfig::standard(),
        ..v
    }
}

/// How a command that goes through counts in the revision of the scene.
#[derive(Clone, Copy, PartialEq, Eq, Structural, Debug)]
pub enum SceneCounting {
    Never,
    Once,
    Twice,
    /// Where it hands back what takes it back.
    WithInverse,
    /// Where the mesh has geometry.
    WithGeometry(AssetId),
}

/// How an edit of meshes counts. Geometry that is set counts even where there was
/// none before, a move even where nothing moves, and baking even where nothing is
/// left to bake.
pub open spec fn mesh_counting(c: MeshCommand) -> SceneCounting {
    match c {
        MeshCommand::SetMeshData { .. } | MeshCommand::BakeAll => SceneCounting::Once,
        MeshCommand::SoftTransformVertices { mesh, .. } => SceneCounting::WithGeometry(mesh),
        _ => SceneCounting::WithInverse,
    }
}

/// How an edit of the mesh of a node counts.
pub open spec fn node_mesh_counting(v: WorkView, c: NodeMeshCommand) -> SceneCounting {
    match c {
        NodeMeshCommand::TransformVerticesWhere { node, indices, .. } => if indices@.len() > 0
            && editable_mesh(v.nodes, v.store.geometry, node) is Ok {
            SceneCounting::Once
        } else {
            SceneCounting::Never
        },
        _ => SceneCounting::WithInverse,
    }
}

/// How an edit of the materials counts: a new material, a deleted one, and another
/// definition of a built-in one. The source of a custom one does not count.
pub open spec fn library_counting(v: LibraryView, c: LibraryCommand) -> SceneCounting {
    match c {
        LibraryCommand::AddCustomMaterial { .. } | LibraryCommand::AddBuiltinMaterial { .. } => if library_marks(
            v,
            c,
        ) {
            SceneCounting::Once
        } else {
            SceneCounting::Never
        },
        LibraryCommand::DeleteCustomMaterial { .. }
        | LibraryCommand::UpdateBuiltinMaterial { .. }
        | LibraryCommand::SetBuiltinAlphaMode { .. } => SceneCounting::Once,
        _ => SceneCounting::Never,
    }
}

/// How a command counts in the revision of the scene: edits of nodes, assets,
/// meshes, materials and the world do; clips, the transport, the mixer, joint
/// weights and what is looked at do not.
pub open spec fn scene_counting(v: WorkView, cmd: EditorCommand) -> SceneCounting {
    match cmd {
        EditorCommand::Node(_)
        | EditorCommand::CopyMaterialInstance { .. }
        | EditorCommand::Duplicate { .. }
        | EditorCommand::Reparent { .. }
        | EditorCommand::Insert { .. }
        | EditorCommand::InsertTree { .. }
        | EditorCommand::Delete { .. }
        | EditorCommand::ResetToBindPose { .. }
        | EditorCommand::Asset(_)
        | EditorCommand::PurgeUnusedAssets { .. }
        | EditorCommand::DropSkinning { .. }
        | EditorCommand::SeparateMesh(_)
        | EditorCommand::ImportNaniteAsset { .. }
        | EditorCommand::World(_) => SceneCounting::WithInverse,
        EditorCommand::Mesh(c) => mesh_counting(c),
        EditorCommand::NodeMesh(c) => node_mesh_counting(v, c),
        EditorCommand::Library(c) => library_counting(v.library, c),
        EditorCommand::NewProject { .. } => SceneCounting::Twice,
        _ => SceneCounting::Never,
    }
}

/// The revision of the scene after a command: one that is refused does not count.
pub open spec fn scene_counted(
    n: u64,
    how: SceneCounting,
    geometry: Map<u128, MeshData>,
    r: Result<Seq<EditorCommand>, EditorError>,
) -> u64 {
    match r {
        Err(_) => n,
        Ok(row) => match how {
            SceneCounting::Never => n,
            SceneCounting::Once => counted64(n, true),
            SceneCounting::Twice => counted64(counted64(n, true), true),
            SceneCounting::WithInverse => counted64(n, row.len() > 0),
            SceneCounting::WithGeometry(mesh) => counted64(n, geometry.contains_key(mesh.0)),
        },
    }
}

/// What a command leaves behind and what it hands back, its place in the revision
/// of the scene counted.
#[verifier::opaque]
pub open spec fn work_step<
    F: Fn(&ModifierStack, &VertexOverrides, &Table<MeshData>) -> MeshData,
>(
    eval: F,
    v: WorkView,
    cmd: EditorCommand,
    w: WorkView,
    r: Result<Seq<EditorCommand>, EditorError>,
) -> bool {
    &&& edit_step(eval, v, cmd, WorkView { scene_revision: v.scene_revision, ..w }, r)
    &&& w.scene_revision == scene_counted(
        v.scene_revision,
        scene_counting(v, cmd),
        w.store.geometry,
        r,
    )
}

/// What a command leaves behind and what it hands back, before it is counted in the
/// revision of the scene.
pub open spec fn edit_step<
    F: Fn(&ModifierStack, &VertexOverrides, &Table<MeshData>) -> MeshData,
>(
    eval: F,
    v: WorkView,
    cmd: EditorCommand,
    w: WorkView,
    r: Result<Seq<EditorCommand>, EditorError>,
) -> bool {
    match cmd {
        EditorCommand::Node(c) => node_work(v, c, w, r),
        EditorCommand::CopyMaterialInstance { from, to } => copy_work(v, from, to, w, r),
        EditorCommand::Duplicate { id, new_id, fresh } => duplicate_work(
            v,
            id,
            new_id,
            fresh@,
            w,
            r,
        ),
        EditorCommand::Reparent { id, new_parent, index } => reparent_work(
            v,
            id,
            new_parent,
            index,
            w,
            r,
        ),
        EditorCommand::Insert { id, spec, parent } => insert_work(eval, v, id, spec, parent, w, r),
        EditorCommand::InsertTree { tree, parent, index } => insert_tree_work(
            v,
            tree.model(),
            parent,
            index,
            w,
            r,
        ),
        EditorCommand::Delete { id } => delete_work(v, id, w, r),
        EditorCommand::ResetToBindPose { id } => reset_work(v, id, w, r),
        EditorCommand::Asset(c) => asset_work(v, c, w, r),
        EditorCommand::PurgeUnusedAssets { roots, docs } => purge_work(v, roots@, docs@, w, r),
        EditorCommand::DropSkinning { node, bind_pose } => drop_work(v, node, bind_pose, w, r),
        EditorCommand::Mesh(c) => mesh_work(eval, v, c, w, r),
        EditorCommand::NodeMesh(c) => node_mesh_work(eval, v, c, w, r),
        EditorCommand::SeparateMesh(s) => split_work(v, s, w, r),
        EditorCommand::SetSkinWeights { node, entries } => skin_work(v, node, entries@, w, r),
        EditorCommand::ImportNaniteAsset { node, asset, url } => nanite_work(
            v,
            node,
            asset,
            url,
            w,
            r,
        ),
        EditorCommand::Library(c) => library_work(v, c, w, r),
        EditorCommand::World(c) => world_work(v, c, w, r),
        EditorCommand::Clip(c) => clip_work(v, c, w, r),
        EditorCommand::Track(c) => track_work(v, c, w, r),
        EditorCommand::Transport(c) => transport_work(v, c, w, r),
        EditorCommand::Mixer(c) => mixer_work(v, c, w, r),
        EditorCommand::View(c) => w == (WorkView { session: view_after(v.session, c), ..v }) && r
            == Ok::<Seq<EditorCommand>, EditorError>(seq![]),
        EditorCommand::NewProject { light } => w == new_project(v, light.model()) && r == Ok::<
            Seq<EditorCommand>,
            EditorError,
        >(seq![]),
        EditorCommand::Outside(_) | EditorCommand::Batch(_) => idle(v, w, r),
    }
}

/// A row of one command.
pub(crate) fn one(c: EditorCommand) -> (r: Vec<EditorCommand>)
    ensures
        r@ == seq![c],
{
    let mut row: Vec<EditorCommand> = Vec::new();
    row.push(c);
    assert(row@ =~= seq![c]);
    row
}

fn none() -> (r: Vec<EditorCommand>)
    ensures
        r@ == Seq::<EditorCommand>::empty(),
{
    Vec::new()
}

fn push_meshes(row: &mut Vec<EditorCommand>, inv: Vec<MeshCommand>)
    ensures
        final(row)@ == old(row)@ + mesh_row(inv@),
{
    let ghost start = row@;
    let ghost all = inv@;
    let mut rest = reversed(inv);
    assert(all.take(0) =~= seq![]);
    while rest.len() > 0
        invariant
            rest@.len() <= all.len(),
            rest@ == all.reverse().take(rest@.len() as int),
            row@ == start + mesh_row(all.take(all.len() - rest@.len())),
        decreases rest@.len(),
    {
        let ghost n = all.len() - rest@.len();
        if let Some(c) = rest.pop() {
            assert(c == all[n as int]);
            row.push(EditorCommand::Mesh(c));
            assert(row@ =~= start + mesh_row(all.take(n as int + 1)));
        }
    }
    assert(all.take(all.len() as int) =~= all);
}

fn push_assets(inv: Vec<AssetCommand>) -> (row: Vec<EditorCommand>)
    ensures
        row@ == assets_row(inv@),
{
    let ghost all = inv@;
    let mut rest = reversed(inv);
    let mut row: Vec<EditorCommand> = Vec::new();
    assert(row@ =~= assets_row(all.take(0)));
    while rest.len() > 0
        invariant
            rest@.len() <= all.len(),
            rest@ == all.reverse().take(rest@.len() as int),
            row@ == assets_row(all.take(all.len() - rest@.len())),
        decreases rest@.len(),
    {
        let ghost n = all.len() - rest@.len();
        if let Some(c) = rest.pop() {
            assert(c == all[n as int]);
            row.push(EditorCommand::Asset(c));
            assert(row@ =~= assets_row(all.take(n as int + 1)));
        }
    }
    assert(all.take(all.len() as int) =~= all);
    row
}

fn push_poses(poses: &Vec<(NodeId, Trs)>) -> (row: Vec<EditorCommand>)
    ensures
        row@ == pose_row(poses@),
{
    let mut row: Vec<EditorCommand> = Vec::new();
    let mut i: usize = poses.len();
    while i > 0
        invariant
            i <= poses@.len(),
            row@ == pose_row(poses@).take(poses@.len() - i),
        decreases i,
    {
        let (node, pose) = poses[i - 1];
        row.push(EditorCommand::Node(NodeCommand { node, edit: NodeEdit::SetTransform(pose) }));
        i -= 1;
        assert(row@ =~= pose_row(poses@).take(poses@.len() - i));
    }
    assert(pose_row(poses@).take(poses@.len() as int) =~= pose_row(poses@));
    row
}

fn push_untracks(at: &Vec<(AssetId, usize)>) -> (row: Vec<EditorCommand>)
    ensures
        row@ == untrack_row(at@),
{
    let mut row: Vec<EditorCommand> = Vec::new();
    let mut i: usize = at.len();
    while i > 0
        invariant
            i <= at@.len(),
            row@ == untrack_row(at@).take(at@.len() - i),
        decreases i,
    {
        let (clip, track) = at[i - 1];
        row.push(EditorCommand::Track(TrackCommand::DeleteTrack { clip, track }));
        i -= 1;
        assert(row@ =~= untrack_row(at@).take(at@.len() - i));
    }
    assert(untrack_row(at@).take(at@.len() as int) =~= untrack_row(at@));
    row
}

/// Whether a workspace is that of an editor that was just started: empty, with
/// nothing to save.
pub open spec fn just_started(v: WorkView, includes: Seq<&'static str>, inputs: Seq<&'static str>) -> bool {
    &&& v.nodes.len() == 0
    &&& v.store.assets == Map::<u128, AssetEntry>::empty()
    &&& v.store.geometry == Map::<u128, MeshData>::empty()
    &&& v.library.materials.len() == 0
    &&& v.library.current is None
    &&& v.timeline == crate::timeline::empty_timeline()
    &&& v.world == World::standard()
    &&& v.skins == Map::<u128, SkinView>::empty()
    &&& crate::session::fresh_session(v.session)
    &&& v.rest == Map::<u128, Trs>::empty()
    &&& v.buffers == Map::<u128, Seq<u32>>::empty()
    &&& v.selections.rows == Map::<u128, Seq<u32>>::empty()
    &&& v.selections.next == 1
    &&& v.includes == includes
    &&& v.inputs == inputs
    &&& v.project_name == "untitled.awsm"@
    &&& v.missing_assets.len() == 0
    &&& !v.dirty
    &&& v.baseline == EnvironmentConfig::standard()
    &&& v.structure_rev == 0
    &&& v.external_rev == 0
    &&& v.anim_revision == 0
    &&& v.mesh_revision == 0
    &&& v.scene_revision == 0
}

fn copied_words(row: &Vec<&'static str>) -> (r: Vec<&'static str>)
    ensures
        r@ == row@,
{
    let mut out: Vec<&'static str> = Vec::new();
    let mut i: usize = 0;
    while i < row.len()
        invariant
            i <= row@.len(),
            out@ == row@.take(i as int),
        decreases row@.len() - i,
    {
        out.push(row[i]);
        i += 1;
        assert(out@ =~= row@.take(i as int));
    }
    assert(row@.take(i as int) =~= row@);
    out
}

impl Workspace {
    /// The same workspace. Lists are shared, so that the copy costs little.
    pub fn copied(&self) -> (w: Workspace)
        ensures
            w@ == self@,
    {
        let s = &self.session;
        let t = &self.timeline;
        let w = Workspace {
            nodes: copied_nodes(&self.nodes),
            store: MeshStore {
                assets: self.store.assets.copied(),
                geometry: self.store.geometry.copied(),
            },
            library: MaterialLibrary {
                materials: copied_row(&self.library.materials),
                current: self.library.current,
            },
            timeline: Timeline {
                clips: copied_row(&t.clips),
                current_clip: t.current_clip,
                playhead: t.playhead,
                playing: t.playing,
                fps: t.fps,
                solo_root: t.solo_root,
                selection: t.selection,
                dock: t.dock,
                layers: copied_row(&t.layers),
            },
            world: self.world,
            skins: self.skins.copied(),
            session: Session {
                mode: s.mode,
                selected: copied_row(&s.selected),
                vertex_selection: match &s.vertex_selection {
                    Some((node, row)) => Some((*node, row.clone())),
                    None => None,
                },
                asset_selection: s.asset_selection,
                settings: s.settings.same(),
                follow_agent: s.follow_agent,
                activity_overlay: s.activity_overlay,
                mcp_notifications: s.mcp_notifications,
            },
            rest: self.rest.copied(),
            buffers: self.buffers.copied(),
            selections: self.selections.copied(),
            valid: ValidKeys {
                includes: copied_words(&self.valid.includes),
                inputs: copied_words(&self.valid.inputs),
            },
            project_name: self.project_name.clone(),
            missing_assets: copied_row(&self.missing_assets),
            dirty: self.dirty,
            env_saved_baseline: self.env_saved_baseline,
            structure_rev: self.structure_rev,
            external_rev: self.external_rev,
            anim_revision: self.anim_revision,
            mesh_revision: self.mesh_revision,
            scene_revision: self.scene_revision,
        };
        assert(w@ =~= self@);
        w
    }

    /// The workspace of an editor that is just started. `valid` are the keys that
    /// a custom material may name.
    pub fn new(valid: ValidKeys) -> (w: Workspace)
        ensures
            just_started(w@, valid.includes@, valid.inputs@),
    {
        let w = Workspace {
            nodes: Vec::new(),
            store: MeshStore::new(),
            library: MaterialLibrary::new(),
            timeline: Timeline::new(),
            world: World::standard(),
            skins: Table::new(),
            session: Session::new(),
            rest: Table::new(),
            buffers: BufferCache::new(),
            selections: VertexSelections::new(),
            valid,
            project_name: "untitled.awsm".to_owned(),
            missing_assets: Vec::new(),
            dirty: false,
            env_saved_baseline: EnvironmentConfig::standard(),
            structure_rev: 0,
            external_rev: 0,
            anim_revision: 0,
            mesh_revision: 0,
            scene_revision: 0,
        };
        assert(w@.skins =~= Map::<u128, SkinView>::empty());
        w
    }

    fn do_node(&mut self, c: NodeCommand) -> (r: Result<Vec<EditorCommand>, EditorError>)
        ensures
            node_work(old(self)@, c, final(self)@, as_row(r)),
    {
        let ghost v = self@;
        match apply_node(&mut self.nodes, c, &self.library.materials) {
            Err(e) => {
                assert(self@ =~= v);
                Err(e)
            },
            Ok(reply) => {
                let ghost g = self@.nodes;
                assert(node_step(v.nodes, c, v.library.materials, g, Ok(reply)));
                self.structure_rev = count64(self.structure_rev, reply.restructured);
                self.anim_revision = count32(self.anim_revision, reply.relit);
                let row = match reply.inverse {
                    Some(c) => one(EditorCommand::Node(c)),
                    None => none(),
                };
                assert(row@ =~= node_row(reply.inverse));
                Ok(row)
            },
        }
    }

    fn do_copy(&mut self, from: NodeId, to: NodeId) -> (r: Result<Vec<EditorCommand>, EditorError>)
        ensures
            copy_work(old(self)@, from, to, final(self)@, as_row(r)),
    {
        match copy_material_instance(&mut self.nodes, from, to) {
            Some(c) => {
                self.structure_rev = count64(self.structure_rev, true);
                Ok(one(EditorCommand::Node(c)))
            },
            None => Ok(none()),
        }
    }

    fn do_duplicate(&mut self, id: NodeId, new_id: NodeId, fresh: &Vec<NodeId>) -> (r: Result<
        Vec<EditorCommand>,
        EditorError,
    >)
        ensures
            duplicate_work(old(self)@, id, new_id, fresh@, final(self)@, as_row(r)),
    {
        let ghost v = self@;
        match duplicate(&mut self.nodes, &mut self.timeline, id, new_id, fresh) {
            Err(e) => {
                assert(self@ =~= v);
                Err(e)
            },
            Ok(at) => {
                let mut row = push_untracks(&at);
                row.push(EditorCommand::Delete { id: new_id });
                let mut selected: Vec<NodeId> = Vec::new();
                selected.push(new_id);
                self.session.selected = selected;
                self.anim_revision = count32(self.anim_revision, at.len() > 0);
                proof {
                    let w = self@;
                    assert(selected@ =~= seq![new_id]);
                    assert(duplicate_step(
                        v.nodes,
                        v.timeline,
                        id,
                        new_id,
                        fresh@,
                        w.nodes,
                        w.timeline,
                        at@,
                    ));
                    assert(w =~= (WorkView {
                        nodes: w.nodes,
                        timeline: w.timeline,
                        session: SessionView { selected: seq![new_id], ..v.session },
                        anim_revision: counted32(v.anim_revision, at@.len() > 0),
                        ..v
                    }));
                }
                Ok(row)
            },
        }
    }

    fn do_reparent(&mut self, id: NodeId, new_parent: Option<NodeId>, index: Option<usize>) -> (r:
        Result<Vec<EditorCommand>, EditorError>)
        ensures
            reparent_work(old(self)@, id, new_parent, index, final(self)@, as_row(r)),
    {
        match reparent(&mut self.nodes, id, new_parent, index) {
            Some((p, k)) => Ok(one(EditorCommand::Reparent { id, new_parent: p, index: Some(k) })),
            None => Ok(none()),
        }
    }

    fn do_insert<F: Fn(&ModifierStack, &VertexOverrides, &Table<MeshData>) -> MeshData>(
        &mut self,
        id: NodeId,
        spec: InsertSpec,
        parent: Option<NodeId>,
        eval: &F,
    ) -> (r: Result<Vec<EditorCommand>, EditorError>)
        requires
            total(*eval),
        ensures
            insert_work(*eval, old(self)@, id, spec, parent, final(self)@, as_row(r)),
    {
        let ghost v = self@;
        let done = insert_node(&mut self.nodes, &mut self.store, id, spec, parent, eval);
        proof {
            let w = self@;
            assert(insert_step(
                *eval,
                v.nodes,
                v.store,
                id,
                spec,
                parent,
                w.nodes,
                w.store,
                done,
            ));
            assert(w =~= (WorkView { nodes: w.nodes, store: w.store, ..v }));
        }
        let mut row: Vec<EditorCommand> = Vec::new();
        match done {
            Inserted::Nothing => {},
            Inserted::Node => {
                row.push(EditorCommand::Delete { id });
            },
            Inserted::NodeAndMesh => {
                row.push(EditorCommand::Delete { id });
                row.push(EditorCommand::Asset(AssetCommand::DeleteAsset { id: AssetId(id.0) }));
            },
        }
        assert(row@ =~= insert_row(id, done));
        Ok(row)
    }

    fn do_insert_tree(&mut self, tree: Node, parent: Option<NodeId>, index: Option<usize>) -> (r:
        Result<Vec<EditorCommand>, EditorError>)
        ensures
            insert_tree_work(old(self)@, tree.model(), parent, index, final(self)@, as_row(r)),
    {
        let id = tree.id;
        if insert_tree(&mut self.nodes, parent, index, tree) {
            Ok(one(EditorCommand::Delete { id }))
        } else {
            Ok(none())
        }
    }

    fn do_delete(&mut self, id: NodeId) -> (r: Result<Vec<EditorCommand>, EditorError>)
        ensures
            delete_work(old(self)@, id, final(self)@, as_row(r)),
    {
        let ghost v = self@;
        let before = self.timeline.clips.len();
        match delete_node(&mut self.nodes, &mut self.timeline, &mut self.session.selected, id) {
            Err(e) => {
                assert(self@ =~= v);
                Err(e)
            },
            Ok((tree, parent, k)) => {
                if self.timeline.clips.len() < before {
                    self.dirty = true;
                }
                proof {
                    let w = self@;
                    assert(w.timeline == pruned(v.timeline, w.nodes));
                    assert(w.timeline.clips.len() == self.timeline.clips@.len());
                    assert(w =~= (WorkView {
                        nodes: removed(v.nodes, id),
                        timeline: pruned(v.timeline, removed(v.nodes, id)),
                        session: SessionView {
                            selected: without_id(v.session.selected, id),
                            ..v.session
                        },
                        dirty: w.dirty,
                        ..v
                    }));
                }
                Ok(one(EditorCommand::InsertTree { tree, parent, index: Some(k) }))
            },
        }
    }

    fn do_reset(&mut self, id: NodeId) -> (r: Result<Vec<EditorCommand>, EditorError>)
        ensures
            reset_work(old(self)@, id, final(self)@, as_row(r)),
    {
        match reset_to_bind_pose(&mut self.nodes, id, &self.rest) {
            Some(poses) => Ok(push_poses(&poses)),
            None => Err(EditorError::NoNode(id)),
        }
    }

    fn do_asset(&mut self, c: AssetCommand) -> (r: Result<Vec<EditorCommand>, EditorError>)
        ensures
            asset_work(old(self)@, c, final(self)@, as_row(r)),
    {
        let ghost v = self@;
        let fetch = match &c {
            AssetCommand::ImportTextureFromUrl { .. } | AssetCommand::ImportKtxEnvFromUrl {
                ..
            } => true,
            _ => false,
        };
        match apply_asset(&mut self.store.assets, &mut self.session.asset_selection, c) {
            Err(e) => {
                assert(self@ =~= v);
                Err(e)
            },
            Ok(inv) => {
                if fetch && inv.is_some() {
                    self.dirty = true;
                }
                let ghost back = inv;
                proof {
                    let w = self@;
                    assert(asset_step(
                        v.store.assets,
                        v.session.asset_selection,
                        c,
                        w.store.assets,
                        w.session.asset_selection,
                        Ok(back),
                    ));
                }
                let row = match inv {
                    Some(c) => one(EditorCommand::Asset(c)),
                    None => none(),
                };
                assert(row@ =~= asset_row(back));
                Ok(row)
            },
        }
    }

    fn do_purge(&mut self, roots: &Vec<Json>, docs: &Table<Json>) -> (r: Result<
        Vec<EditorCommand>,
        EditorError,
    >)
        ensures
            purge_work(old(self)@, roots@, docs@, final(self)@, as_row(r)),
    {
        let ghost v = self@;
        let inv = purge_unused_assets(
            &mut self.store.assets,
            &mut self.session.asset_selection,
            roots,
            docs,
        );
        if inv.len() > 0 {
            self.dirty = true;
        }
        let ghost row = inv@;
        proof {
            let w = self@;
            assert(w.store.assets =~= purged(v.store.assets, roots@, docs@));
            assert(restores(v.store.assets, purged(v.store.assets, roots@, docs@), row));
        }
        Ok(push_assets(inv))
    }

    fn do_drop(&mut self, node: NodeId, bind_pose: Option<MeshData>) -> (r: Result<
        Vec<EditorCommand>,
        EditorError,
    >)
        ensures
            drop_work(old(self)@, node, bind_pose, final(self)@, as_row(r)),
    {
        let ghost v = self@;
        match drop_skinning(&mut self.nodes, &mut self.store, node, bind_pose) {
            Some(c) => {
                self.structure_rev = count64(self.structure_rev, true);
                self.dirty = true;
                Ok(one(EditorCommand::Node(c)))
            },
            None => {
                assert(self@ =~= v);
                Ok(none())
            },
        }
    }

    fn do_mesh<F: Fn(&ModifierStack, &VertexOverrides, &Table<MeshData>) -> MeshData>(
        &mut self,
        c: MeshCommand,
        eval: &F,
    ) -> (r: Result<Vec<EditorCommand>, EditorError>)
        requires
            total(*eval),
        ensures
            mesh_work(*eval, old(self)@, c, final(self)@, as_row(r)),
    {
        let ghost v = self@;
        match self.store.apply_mesh(c, &self.selections, eval) {
            Err(e) => {
                proof {
                    crate::mesh_edit::lemma_refused_mesh_edit(
                        *eval,
                        v.selections,
                        v.store,
                        c,
                        self@.store,
                        e,
                    );
                }
                assert(self@ =~= v);
                Err(e)
            },
            Ok(inv) => {
                let ghost back = inv@;
                assert(mesh_step(*eval, v.selections, v.store, c, self@.store, Ok(back)));
                let mut row: Vec<EditorCommand> = Vec::new();
                push_meshes(&mut row, inv);
                assert(row@ =~= mesh_row(back));
                Ok(row)
            },
        }
    }

    fn do_node_mesh<F: Fn(&ModifierStack, &VertexOverrides, &Table<MeshData>) -> MeshData>(
        &mut self,
        c: NodeMeshCommand,
        eval: &F,
    ) -> (r: Result<Vec<EditorCommand>, EditorError>)
        requires
            total(*eval),
        ensures
            node_mesh_work(*eval, old(self)@, c, final(self)@, as_row(r)),
    {
        let ghost v = self@;
        match apply_node_mesh(&self.nodes, &mut self.store, c, &self.selections, eval) {
            Err(e) => {
                proof {
                    crate::scene_edit::lemma_refused_node_mesh_edit(
                        *eval,
                        v.selections,
                        v.nodes,
                        v.store,
                        c,
                        self@.store,
                        e,
                    );
                }
                assert(self@ =~= v);
                Err(e)
            },
            Ok(inv) => {
                let ghost back = inv@;
                assert(node_mesh_step(
                    *eval,
                    v.selections,
                    v.nodes,
                    v.store,
                    c,
                    self@.store,
                    Ok(back),
                ));
                let mut row: Vec<EditorCommand> = Vec::new();
                push_meshes(&mut row, inv);
                assert(row@ =~= mesh_row(back));
                Ok(row)
            },
        }
    }

    fn do_split(&mut self, s: Split) -> (r: Result<Vec<EditorCommand>, EditorError>)
        ensures
            split_work(old(self)@, s, final(self)@, as_row(r)),
    {
        let ghost v = self@;
        let id = s.new_node;
        match separate_mesh(&mut self.nodes, &mut self.store, s, &self.selections) {
            Err(e) => {
                assert(self@ =~= v);
                Err(e)
            },
            Ok(SplitDone::Nothing) => {
                assert(self@ =~= v);
                Ok(none())
            },
            Ok(SplitDone::Added) => {
                let mut row = one(EditorCommand::Delete { id });
                row.push(EditorCommand::Asset(AssetCommand::DeleteAsset { id: AssetId(id.0) }));
                assert(row@ =~= split_row(s, seq![]));
                Ok(row)
            },
            Ok(SplitDone::Cut(inv)) => {
                let ghost back = inv@;
                let mut row = one(EditorCommand::Delete { id });
                row.push(EditorCommand::Asset(AssetCommand::DeleteAsset { id: AssetId(id.0) }));
                push_meshes(&mut row, inv);
                assert(row@ =~= split_row(s, back));
                Ok(row)
            },
        }
    }

    fn do_skin(&mut self, node: NodeId, entries: &List<SkinWeightEntry>) -> (r: Result<
        Vec<EditorCommand>,
        EditorError,
    >)
        ensures
            skin_work(old(self)@, node, entries@, final(self)@, as_row(r)),
    {
        let ghost v = self@;
        let mut stream = match self.skins.get(node.0) {
            Some(s) => s.same(),
            None => {
                return Ok(none());
            },
        };
        let former = stream.set_weights(entries);
        if former.is_empty() {
            return Ok(none());
        }
        self.skins.insert(node.0, stream);
        self.dirty = true;
        proof {
            let s = v.skins[node.0];
            assert(self@.skins =~= v.skins.insert(
                node.0,
                SkinView { bytes: reweighted(s, entries@), ..s },
            ));
        }
        Ok(one(EditorCommand::SetSkinWeights { node, entries: former }))
    }

    fn do_nanite(&mut self, node: NodeId, asset: AssetId, url: String) -> (r: Result<
        Vec<EditorCommand>,
        EditorError,
    >)
        ensures
            nanite_work(old(self)@, node, asset, url, final(self)@, as_row(r)),
    {
        let ghost v = self@;
        self.store.assets.insert(asset.0, AssetEntry::new(AssetSource::Url(url)));
        let n = Node {
            id: node,
            data: NodeData {
                name: "Nanite Mesh".to_owned(),
                transform: Trs::identity(),
                kind: NodeKind::ClusterMesh {
                    source: asset,
                    palette: Palette::empty(),
                    shadow: ShadowFlags::standard(),
                },
                visible: true,
                locked: false,
                prefab: false,
            },
            children: Vec::new(),
        };
        let ghost t = n.model();
        assert(is_plain_node(t, node, "Nanite Mesh"@, Trs::identity()));
        insert_tree(&mut self.nodes, None, None, n);
        self.dirty = true;
        proof {
            let w = self@;
            assert(w =~= (WorkView {
                nodes: added(v.nodes, None, None, t),
                store: StoreView {
                    assets: v.store.assets.insert(asset.0, w.store.assets[asset.0]),
                    ..v.store
                },
                dirty: true,
                ..v
            }));
        }
        Ok(one(EditorCommand::Delete { id: node }))
    }

    /// Where a built-in material stands in the library, and its definition.
    fn builtin_of(&self, id: AssetId) -> (r: Option<(usize, MaterialDef)>)
        ensures
            match r {
                Some((i, d)) => {
                    &&& self@.library.has_material(id)
                    &&& i == material_at(self@.library.materials, id)
                    &&& self@.library.material(id).builtin == Some(d)
                },
                None => self@.library.has_material(id) ==> self@.library.material(id).builtin
                    is None,
            },
    {
        match find_material(&self.library.materials, id) {
            Some(i) => match &self.library.materials[i].builtin {
                Some(d) => Some((i, d.same())),
                None => None,
            },
            None => None,
        }
    }

    fn do_library(&mut self, c: LibraryCommand) -> (r: Result<Vec<EditorCommand>, EditorError>)
        ensures
            library_work(old(self)@, c, final(self)@, as_row(r)),
    {
        let ghost v = self@;
        let redefined: Option<AssetId> = match &c {
            LibraryCommand::UpdateBuiltinMaterial { id, .. }
            | LibraryCommand::SetBuiltinAlphaMode { id, .. } => Some(*id),
            _ => None,
        };
        let former = match redefined {
            Some(id) => self.builtin_of(id),
            None => None,
        };
        let marks = match &c {
            LibraryCommand::SetCurrentMaterial { .. } => false,
            LibraryCommand::AddCustomMaterial { id } | LibraryCommand::AddBuiltinMaterial {
                id,
                ..
            } => {
                proof {
                    crate::find::lemma_first(
                        v.library.materials,
                        is_material(*id),
                    );
                }
                find_material(&self.library.materials, *id).is_none()
            },
            _ => true,
        };
        assert(marks == library_marks(v.library, c));
        match self.library.apply_library(c, &self.valid) {
            Err(e) => {
                proof {
                    crate::library_edit::lemma_refused_library_edit(
                        v.library,
                        c,
                        v.includes,
                        v.inputs,
                        self@.library,
                        e,
                    );
                }
                assert(self@ =~= v);
                Err(e)
            },
            Ok(inv) => {
                let ghost back = inv;
                assert(library_step(
                    v.library,
                    c,
                    v.includes,
                    v.inputs,
                    self@.library,
                    Ok(back),
                ));
                self.structure_rev = count64(self.structure_rev, redefined.is_some());
                if let Some(id) = redefined {
                    if let Some((i, before)) = former {
                        if let Some(after) = &self.library.materials[i].builtin {
                            reseed_inline_for_material(&mut self.nodes, id, &before, after);
                        }
                    }
                }
                assert(nodes_follow(v, c, self@));
                if marks {
                    self.dirty = true;
                }
                let row = match inv {
                    Some(c) => one(EditorCommand::Library(c)),
                    None => none(),
                };
                assert(row@ =~= library_row(back));
                Ok(row)
            },
        }
    }

    fn do_world(&mut self, c: WorldCommand) -> (r: Result<Vec<EditorCommand>, EditorError>)
        ensures
            world_work(old(self)@, c, final(self)@, as_row(r)),
    {
        let post = match &c {
            WorldCommand::SetPostProcess(_) => true,
            _ => false,
        };
        let inv = self.world.apply_world(c);
        if post {
            self.dirty = true;
        }
        let ghost back = inv;
        let row = match inv {
            Some(c) => one(EditorCommand::World(c)),
            None => none(),
        };
        assert(row@ =~= world_row(back));
        Ok(row)
    }

    fn do_clip(&mut self, c: ClipCommand) -> (r: Result<Vec<EditorCommand>, EditorError>)
        ensures
            clip_work(old(self)@, c, final(self)@, as_row(r)),
    {
        let ghost v = self@;
        let current = match &c {
            ClipCommand::SetCurrentClip { .. } => true,
            _ => false,
        };
        let marks = match &c {
            ClipCommand::SetCurrentClip { .. } => false,
            ClipCommand::DuplicateClip { id, .. } => {
                proof {
                    crate::find::lemma_first(v.timeline.clips, crate::clips::is_clip(*id));
                }
                crate::clips::find_clip(&self.timeline.clips, *id).is_some()
            },
            _ => true,
        };
        let ghost cmd = c;
        match self.timeline.apply_clip(c) {
            Err(e) => {
                assert(self@ =~= WorkView { timeline: clip_after(v.timeline, cmd), ..v });
                Err(e)
            },
            Ok(inv) => {
                let ghost back = inv;
                assert(clip_inverse(v.timeline, cmd, back));
                self.anim_revision = count32(self.anim_revision, current);
                if marks {
                    self.dirty = true;
                }
                let row = match inv {
                    Some(c) => one(EditorCommand::Clip(c)),
                    None => none(),
                };
                assert(row@ =~= clip_row(back));
                assert(self@ =~= WorkView {
                    timeline: clip_after(v.timeline, cmd),
                    anim_revision: counted32(v.anim_revision, cmd is SetCurrentClip),
                    dirty: v.dirty || clip_marks(v.timeline, cmd),
                    ..v
                });
                Ok(row)
            },
        }
    }

    fn do_track(&mut self, c: TrackCommand) -> (r: Result<Vec<EditorCommand>, EditorError>)
        ensures
            track_work(old(self)@, c, final(self)@, as_row(r)),
    {
        let ghost v = self@;
        match self.timeline.apply_track(c, &self.nodes, &self.library.materials) {
            Err(e) => {
                assert(self@ =~= v);
                Err(e)
            },
            Ok(inv) => {
                let ghost back = inv;
                assert(track_step(
                    v.timeline,
                    c,
                    v.nodes,
                    v.library.materials,
                    self@.timeline,
                    Ok(back),
                ));
                let row = match inv {
                    Some(c) => one(EditorCommand::Track(c)),
                    None => none(),
                };
                if row.len() > 0 {
                    self.dirty = true;
                }
                assert(row@ =~= track_row(back));
                Ok(row)
            },
        }
    }

    fn do_mixer(&mut self, c: MixerCommand) -> (r: Result<Vec<EditorCommand>, EditorError>)
        ensures
            mixer_work(old(self)@, c, final(self)@, as_row(r)),
    {
        let ghost v = self@;
        match self.timeline.apply_mixer(c) {
            Err(e) => {
                assert(self@ =~= v);
                Err(e)
            },
            Ok(inv) => {
                let ghost back = inv;
                assert(mixer_inverse(v.timeline, c, back));
                let row = match inv {
                    Some(c) => one(EditorCommand::Mixer(c)),
                    None => none(),
                };
                if row.len() > 0 {
                    self.dirty = true;
                }
                assert(row@ =~= mixer_row(back));
                Ok(row)
            },
        }
    }

    fn do_new_project(&mut self, light: Node)
        ensures
            final(self)@ == new_project(old(self)@, light.model()),
    {
        let ghost v = self@;
        let mut nodes: Vec<Node> = Vec::new();
        nodes.push(light);
        assert(forest(nodes@) =~= seq![light.model()]);
        self.nodes = nodes;
        self.store.assets.clear();
        self.library.materials = Vec::new();
        self.library.current = None;
        self.timeline.clips = Vec::new();
        self.timeline.current_clip = None;
        self.timeline.layers = Vec::new();
        self.timeline.selection = None;
        self.timeline.solo_root = None;
        self.timeline.playhead = F64::zero();
        self.timeline.playing = false;
        let bundle_options = self.world.bundle_options;
        self.world = World::standard();
        self.world.bundle_options = bundle_options;
        self.skins.clear();
        self.session.selected = Vec::new();
        self.session.vertex_selection = None;
        self.session.asset_selection = None;
        crate::buffer_cache::clear(&mut self.buffers);
        self.project_name = "untitled.awsm".to_owned();
        self.missing_assets = Vec::new();
        self.dirty = false;
        self.env_saved_baseline = EnvironmentConfig::standard();
        assert(clip_shapes(self.timeline.clips@) =~= seq![]);
        assert(layer_shapes(self.timeline.layers@) =~= seq![]);
        assert(self@.skins =~= Map::empty());
        assert(self@ =~= new_project(v, light.model()));
    }

    fn library_counting(&self, c: &LibraryCommand) -> (how: SceneCounting)
        ensures
            how == library_counting(self@.library, *c),
    {
        match c {
            LibraryCommand::AddCustomMaterial { id } | LibraryCommand::AddBuiltinMaterial {
                id,
                ..
            } => if find_material(&self.library.materials, *id).is_none() {
                SceneCounting::Once
            } else {
                SceneCounting::Never
            },
            LibraryCommand::DeleteCustomMaterial { .. }
            | LibraryCommand::UpdateBuiltinMaterial { .. }
            | LibraryCommand::SetBuiltinAlphaMode { .. } => SceneCounting::Once,
            _ => SceneCounting::Never,
        }
    }

    fn node_mesh_counting(&self, c: &NodeMeshCommand) -> (how: SceneCounting)
        ensures
            how == node_mesh_counting(self@, *c),
    {
        match c {
            NodeMeshCommand::TransformVerticesWhere { node, indices, .. } => if !indices.is_empty()
                && node_editable_mesh(&self.nodes, &self.store, *node).is_ok() {
                SceneCounting::Once
            } else {
                SceneCounting::Never
            },
            _ => SceneCounting::WithInverse,
        }
    }

    /// How a command counts in the revision of the scene.
    fn scene_counting(&self, cmd: &EditorCommand) -> (how: SceneCounting)
        ensures
            how == scene_counting(self@, *cmd),
    {
        match cmd {
            EditorCommand::Node(_)
            | EditorCommand::CopyMaterialInstance { .. }
            | EditorCommand::Duplicate { .. }
            | EditorCommand::Reparent { .. }
            | EditorCommand::Insert { .. }
            | EditorCommand::InsertTree { .. }
            | EditorCommand::Delete { .. }
            | EditorCommand::ResetToBindPose { .. }
            | EditorCommand::Asset(_)
            | EditorCommand::PurgeUnusedAssets { .. }
            | EditorCommand::DropSkinning { .. }
            | EditorCommand::SeparateMesh(_)
            | EditorCommand::ImportNaniteAsset { .. }
            | EditorCommand::World(_) => SceneCounting::WithInverse,
            EditorCommand::Mesh(c) => match c {
                MeshCommand::SetMeshData { .. } | MeshCommand::BakeAll => SceneCounting::Once,
                MeshCommand::SoftTransformVertices { mesh, .. } => SceneCounting::WithGeometry(
                    *mesh,
                ),
                _ => SceneCounting::WithInverse,
            },
            EditorCommand::NodeMesh(c) => self.node_mesh_counting(c),
            EditorCommand::Library(c) => self.library_counting(c),
            EditorCommand::NewProject { .. } => SceneCounting::Twice,
            _ => SceneCounting::Never,
        }
    }

    /// Counts a command that handed back a result in the revision of the scene.
    fn count_in_scene(&mut self, how: SceneCounting, r: &Result<Vec<EditorCommand>, EditorError>)
        ensures
            final(self)@ == (WorkView {
                scene_revision: scene_counted(
                    old(self)@.scene_revision,
                    how,
                    old(self)@.store.geometry,
                    as_row(*r),
                ),
                ..old(self)@
            }),
    {
        if let Ok(row) = r {
            let times: u64 = match how {
                SceneCounting::Never => 0,
                SceneCounting::Once => 1,
                SceneCounting::Twice => 2,
                SceneCounting::WithInverse => if row.len() > 0 {
                    1
                } else {
                    0
                },
                SceneCounting::WithGeometry(mesh) => if self.store.geometry.get(mesh.0).is_some() {
                    1
                } else {
                    0
                },
            };
            self.scene_revision = self.scene_revision.wrapping_add(times);
        }
    }

    /// Applies a command. Hands back the commands that take it back, in the
    /// order in which they are to be applied; none where it cannot be taken back.
    pub fn apply_inner<F: Fn(&ModifierStack, &VertexOverrides, &Table<MeshData>) -> MeshData>(
        &mut self,
        cmd: EditorCommand,
        eval: &F,
    ) -> (r: Result<Vec<EditorCommand>, EditorError>)
        requires
            total(*eval),
        ensures
            work_step(*eval, old(self)@, cmd, final(self)@, as_row(r)),
    {
        let how = self.scene_counting(&cmd);
        let ghost v = self@;
        let r = self.edit(cmd, eval);
        let ghost mid = self@;
        self.count_in_scene(how, &r);
        proof {
            reveal(work_step);
            assert(mid == WorkView { scene_revision: v.scene_revision, ..self@ });
        }
        r
    }

    fn edit<F: Fn(&ModifierStack, &VertexOverrides, &Table<MeshData>) -> MeshData>(
        &mut self,
        cmd: EditorCommand,
        eval: &F,
    ) -> (r: Result<Vec<EditorCommand>, EditorError>)
        requires
            total(*eval),
        ensures
            edit_step(*eval, old(self)@, cmd, final(self)@, as_row(r)),
            final(self)@.scene_revision == old(self)@.scene_revision,
    {
        match cmd {
            EditorCommand::Node(c) => self.do_node(c),
            EditorCommand::CopyMaterialInstance { from, to } => self.do_copy(from, to),
            EditorCommand::Duplicate { id, new_id, fresh } => self.do_duplicate(id, new_id, &fresh),
            EditorCommand::Reparent { id, new_parent, index } => self.do_reparent(
                id,
                new_parent,
                index,
            ),
            EditorCommand::Insert { id, spec, parent } => self.do_insert(id, spec, parent, eval),
            EditorCommand::InsertTree { tree, parent, index } => self.do_insert_tree(
                tree,
                parent,
                index,
            ),
            EditorCommand::Delete { id } => self.do_delete(id),
            EditorCommand::ResetToBindPose { id } => self.do_reset(id),
            EditorCommand::Asset(c) => self.do_asset(c),
            EditorCommand::PurgeUnusedAssets { roots, docs } => self.do_purge(&roots, &docs),
            EditorCommand::DropSkinning { node, bind_pose } => self.do_drop(node, bind_pose),
            EditorCommand::Mesh(c) => self.do_mesh(c, eval),
            EditorCommand::NodeMesh(c) => self.do_node_mesh(c, eval),
            EditorCommand::SeparateMesh(s) => self.do_split(s),
            EditorCommand::SetSkinWeights { node, entries } => self.do_skin(node, &entries),
            EditorCommand::ImportNaniteAsset { node, asset, url } => self.do_nanite(
                node,
                asset,
                url,
            ),
            EditorCommand::Library(c) => self.do_library(c),
            EditorCommand::World(c) => self.do_world(c),
            EditorCommand::Clip(c) => self.do_clip(c),
            EditorCommand::Track(c) => self.do_track(c),
            EditorCommand::Transport(c) => {
                self.timeline.apply_transport(c);
                Ok(none())
            },
            EditorCommand::Mixer(c) => self.do_mixer(c),
            EditorCommand::View(c) => {
                self.session.apply_view(c);
                Ok(none())
            },
            EditorCommand::NewProject { light } => {
                self.do_new_project(light);
                Ok(none())
            },
            EditorCommand::Outside(_) | EditorCommand::Batch(_) => Ok(none()),
        }
    }
}

} // verus!
