//! What holds of the marks that an edit leaves: whether there is something to save,
//! what is counted, what is selected afterwards, and what an edit puts in or takes out.
use crate::asset_edit::AssetCommand;
use crate::assets::{
    AssetSource, CapturedSource, MeshBase, MeshData, ModifierStack, PrimitiveShape, SweepDef,
    VertexOverrides,
};
use crate::command::EditorCommand;
use crate::errors::EditorError;
use crate::ids::{AssetId, NodeId};
use crate::library_edit::LibraryCommand;
use crate::mesh_edit::mesh_def;
use crate::node::{structure_text, NodeKind};
use crate::node_edit::{NodeCommand, NodeEdit};
use crate::reachable::{in_use, Json};
use crate::scene_edit::{is_bare_mesh, is_inserted, is_plain_node, primitive_name, InsertSpec};
use crate::session::SessionView;
use crate::table::Table;
use crate::timeline::ClipCommand;
use crate::tree::{added, find, within, Tree};
use crate::values::{F64, Trs};
use crate::workspace::{
    assets_row, edit_step, is_cluster_mesh, just_started, new_project, restores, WorkView,
};
use vstd::prelude::*;

verus! {

/// Whether an edit went through and hands back something that takes it back.
pub open spec fn did_something(r: Result<Seq<EditorCommand>, EditorError>) -> bool {
    r matches Ok(row) && row.len() > 0
}

/// An edit of nodes or of meshes does not mark the project itself, nor does one of what
/// is shown or played. A refused edit marks nothing. An edit of joint weights, of tracks
/// or of layers marks it where something was done, and so does one that takes skinning
/// or unused assets away. Of the settings of the world only those of the post-processing
/// do, and of the assets only one that was fetched. A deleted node marks it where a clip
/// went with it.
pub proof fn law_edit_marks_the_project<
    F: Fn(&ModifierStack, &VertexOverrides, &Table<MeshData>) -> MeshData,
>(
    eval: F,
    v: WorkView,
    cmd: EditorCommand,
    w: WorkView,
    r: Result<Seq<EditorCommand>, EditorError>,
)
    requires
        edit_step(eval, v, cmd, w, r),
    ensures
        r is Err ==> w.dirty == v.dirty,
        cmd is Node || cmd is CopyMaterialInstance || cmd is Duplicate || cmd is Reparent || cmd
            is Insert || cmd is InsertTree || cmd is ResetToBindPose ==> w.dirty == v.dirty,
        cmd is Mesh || cmd is NodeMesh || cmd is SeparateMesh || cmd is Transport || cmd is View
            ==> w.dirty == v.dirty,
        cmd is SetSkinWeights || cmd is DropSkinning || cmd is Track || cmd is Mixer || cmd
            is PurgeUnusedAssets ==> w.dirty == (v.dirty || did_something(r)),
        cmd is ImportNaniteAsset ==> w.dirty,
        cmd is NewProject ==> !w.dirty,
        cmd matches EditorCommand::World(c) ==> w.dirty == (v.dirty || c is SetPostProcess),
        cmd is Delete && r is Ok ==> w.dirty == (v.dirty || w.timeline.clips.len()
            < v.timeline.clips.len()),
        cmd matches EditorCommand::Asset(c) ==> w.dirty == (v.dirty || ((c is ImportTextureFromUrl
            || c is ImportKtxEnvFromUrl) && did_something(r))),
        cmd matches EditorCommand::Library(c) ==> (r is Ok ==> match c {
            LibraryCommand::SetCurrentMaterial { .. } => w.dirty == v.dirty,
            LibraryCommand::AddCustomMaterial { id } => w.dirty == (v.dirty
                || !v.library.has_material(id)),
            LibraryCommand::AddBuiltinMaterial { id, .. } => w.dirty == (v.dirty
                || !v.library.has_material(id)),
            _ => w.dirty,
        }),
        cmd matches EditorCommand::Clip(c) ==> (r is Ok ==> match c {
            ClipCommand::SetCurrentClip { .. } => w.dirty == v.dirty,
            ClipCommand::DuplicateClip { .. } => w.dirty == (v.dirty || w.timeline.clips.len()
                > v.timeline.clips.len()),
            _ => w.dirty,
        }),
{
}

/// The number after a number, from the largest back to zero.
pub open spec fn after64(n: u64) -> int {
    if n == 0xFFFF_FFFF_FFFF_FFFF {
        0
    } else {
        n + 1
    }
}

/// The number after a number, from the largest back to zero.
pub open spec fn after32(n: u32) -> int {
    if n == 0xFFFF_FFFF {
        0
    } else {
        n + 1
    }
}

/// Which controls a node has is counted once where a material is copied onto it, where
/// it loses its skin, and where a built-in material is defined anew; what is animated is
/// counted where another clip becomes the current one and where a copy is animated. No
/// other edit but one of a node counts either, and none counts anything else.
pub proof fn law_edit_counts_what_it_changes<
    F: Fn(&ModifierStack, &VertexOverrides, &Table<MeshData>) -> MeshData,
>(
    eval: F,
    v: WorkView,
    cmd: EditorCommand,
    w: WorkView,
    r: Result<Seq<EditorCommand>, EditorError>,
)
    requires
        edit_step(eval, v, cmd, w, r),
    ensures
        w.external_rev == v.external_rev,
        w.mesh_revision == v.mesh_revision,
        w.scene_revision == v.scene_revision,
        cmd is CopyMaterialInstance || cmd is DropSkinning ==> w.structure_rev
            == if did_something(r) {
            after64(v.structure_rev)
        } else {
            v.structure_rev as int
        },
        cmd matches EditorCommand::Library(c) ==> w.structure_rev == if r is Ok && (c
            is UpdateBuiltinMaterial || c is SetBuiltinAlphaMode) {
            after64(v.structure_rev)
        } else {
            v.structure_rev as int
        },
        !(cmd is CopyMaterialInstance || cmd is DropSkinning || cmd is Library || cmd is Node)
            ==> w.structure_rev == v.structure_rev,
        cmd matches EditorCommand::Clip(c) ==> w.anim_revision == if c is SetCurrentClip {
            after32(v.anim_revision)
        } else {
            v.anim_revision as int
        },
        cmd is Duplicate ==> w.anim_revision == if r is Ok && r->Ok_0.len() > 1 {
            after32(v.anim_revision)
        } else {
            v.anim_revision as int
        },
        !(cmd is Clip || cmd is Duplicate || cmd is Node) ==> w.anim_revision == v.anim_revision,
{
}

/// An edit of a node counts its structure where its kind is replaced by one that is
/// structured otherwise, and counts what is animated where a light changes.
pub proof fn law_node_edit_counts_what_it_changes<
    F: Fn(&ModifierStack, &VertexOverrides, &Table<MeshData>) -> MeshData,
>(
    eval: F,
    v: WorkView,
    node: NodeId,
    edit: NodeEdit,
    w: WorkView,
    r: Result<Seq<EditorCommand>, EditorError>,
)
    requires
        edit_step(
            eval,
            v,
            EditorCommand::Node(NodeCommand { node, edit }),
            w,
            r,
        ),
    ensures
        !did_something(r) || edit is SetTransform || edit is Rename || edit is SetVisible || edit
            is SetLocked || edit is SetPrefab ==> w.structure_rev == v.structure_rev
            && w.anim_revision == v.anim_revision,
        edit is SetLightParam && did_something(r) ==> w.anim_revision == after32(v.anim_revision),
        edit is SetKind && did_something(r) ==> {
            let a = find(v.nodes, node)->0.data.kind;
            let b = find(w.nodes, node)->0.data.kind;
            &&& w.structure_rev == if structure_text(a) != structure_text(b) {
                after64(v.structure_rev)
            } else {
                v.structure_rev as int
            }
            &&& w.anim_revision == if a is Light || b is Light {
                after32(v.anim_revision)
            } else {
                v.anim_revision as int
            }
        },
{
}

/// A copy of a node becomes the one that is selected, and nothing else of the session
/// changes; an edit that neither copies nor deletes a node, nor is one of assets or of
/// the session itself, leaves the session as it is.
pub proof fn law_copy_is_selected<
    F: Fn(&ModifierStack, &VertexOverrides, &Table<MeshData>) -> MeshData,
>(
    eval: F,
    v: WorkView,
    cmd: EditorCommand,
    w: WorkView,
    r: Result<Seq<EditorCommand>, EditorError>,
)
    requires
        edit_step(eval, v, cmd, w, r),
    ensures
        cmd matches EditorCommand::Duplicate { new_id, .. } ==> (r is Ok ==> {
            &&& w.session.selected == seq![new_id]
            &&& (SessionView { selected: v.session.selected, ..w.session }) == v.session
        }),
        !(cmd is Duplicate || cmd is Delete || cmd is Asset || cmd is PurgeUnusedAssets || cmd
            is View || cmd is NewProject) ==> w.session == v.session,
        cmd is Asset || cmd is PurgeUnusedAssets ==> (SessionView {
            asset_selection: v.session.asset_selection,
            ..w.session
        }) == v.session,
{
}

/// Unused assets are taken away, and only those: one that is in use stays as it is. An
/// asset that goes is no longer selected, and what is handed back restores it as it was.
pub proof fn law_unused_assets_go<
    F: Fn(&ModifierStack, &VertexOverrides, &Table<MeshData>) -> MeshData,
>(
    eval: F,
    v: WorkView,
    cmd: EditorCommand,
    roots: Seq<Json>,
    docs: Map<u128, Json>,
    w: WorkView,
    r: Result<Seq<EditorCommand>, EditorError>,
    k: u128,
)
    requires
        edit_step(eval, v, cmd, w, r),
        cmd matches EditorCommand::PurgeUnusedAssets { roots: a, docs: b } && a@ == roots && b@
            == docs,
    ensures
        r is Ok,
        w.store.assets.contains_key(k) == (v.store.assets.contains_key(k) && in_use(
            roots,
            docs,
            k,
        )),
        w.store.assets.contains_key(k) ==> w.store.assets[k] == v.store.assets[k],
        w.store.geometry == v.store.geometry,
        v.session.asset_selection == Some(AssetId(k)) ==> w.session.asset_selection
            == if v.store.assets.contains_key(k) && !w.store.assets.contains_key(k) {
            None
        } else {
            Some(AssetId(k))
        },
        v.session.asset_selection is None ==> w.session.asset_selection is None,
        v.store.assets.contains_key(k) && !w.store.assets.contains_key(k) ==> r->Ok_0.contains(
            EditorCommand::Asset(
                AssetCommand::RestoreAsset { id: AssetId(k), entry: v.store.assets[k] },
            ),
        ),
{
    let a = v.store.assets;
    let b = w.store.assets;
    let row = choose|row: Seq<AssetCommand>| #[trigger]
        restores(a, b, row) && r->Ok_0 == assets_row(row);
    assert(restores(a, b, row) && r->Ok_0 == assets_row(row));
    if a.contains_key(k) && !b.contains_key(k) {
        let c = AssetCommand::RestoreAsset { id: AssetId(k), entry: a[k] };
        let i = choose|i: int| 0 <= i < row.len() && #[trigger] row[i] == c;
        assert(r->Ok_0[i] == EditorCommand::Asset(c));
    }
}

/// A node that is put in at the top comes last, visible, unlocked, without children:
/// an empty one is a group, an instancer has no instances yet, and one that is prepared
/// is as it is given. The assets stay.
pub proof fn law_node_is_put_in_last<
    F: Fn(&ModifierStack, &VertexOverrides, &Table<MeshData>) -> MeshData,
>(
    eval: F,
    v: WorkView,
    id: NodeId,
    spec: InsertSpec,
    w: WorkView,
    r: Result<Seq<EditorCommand>, EditorError>,
)
    requires
        edit_step(eval, v, EditorCommand::Insert { id, spec, parent: None }, w, r),
        !within(v.nodes, id),
        spec is Empty || spec is Instancer || spec is Prepared,
    ensures
        w.store == v.store,
        w.nodes.len() == v.nodes.len() + 1,
        w.nodes.drop_last() == v.nodes,
        w.nodes.last().id == id,
        w.nodes.last().children.len() == 0,
        spec is Empty || spec is Instancer ==> w.nodes.last().data.visible
            && !w.nodes.last().data.locked && !w.nodes.last().data.prefab
            && w.nodes.last().data.transform == Trs::identity(),
        spec is Empty ==> w.nodes.last().data.name@ == "Empty"@ && w.nodes.last().data.kind
            is Group,
        spec is Instancer ==> w.nodes.last().data.name@ == "Instancer"@,
        spec is Instancer ==> (w.nodes.last().data.kind matches NodeKind::Instancer(d)
            && d.transforms@.len() == 0),
        spec matches InsertSpec::Prepared { data, .. } ==> w.nodes.last().data == data,
        r == Ok::<Seq<EditorCommand>, EditorError>(seq![EditorCommand::Delete { id }]),
{
    assert(exists|n: Tree|
        is_inserted(n, id, spec) && w.nodes == #[trigger] added(v.nodes, None, None, n));
    let n = choose|n: Tree|
        is_inserted(n, id, spec) && w.nodes == #[trigger] added(v.nodes, None, None, n);
    assert(w.nodes.last() == n);
    assert(w.nodes.drop_last() =~= v.nodes);
}

/// A sweep is put in as a mesh that is made of it, under its own id.
pub proof fn law_sweep_is_put_in_as_a_mesh<
    F: Fn(&ModifierStack, &VertexOverrides, &Table<MeshData>) -> MeshData,
>(
    eval: F,
    v: WorkView,
    id: NodeId,
    def: SweepDef,
    w: WorkView,
    r: Result<Seq<EditorCommand>, EditorError>,
)
    requires
        edit_step(
            eval,
            v,
            EditorCommand::Insert { id, spec: InsertSpec::Sweep(def), parent: None },
            w,
            r,
        ),
        !within(v.nodes, id),
    ensures
        w.nodes.len() == v.nodes.len() + 1,
        w.nodes.drop_last() == v.nodes,
        w.nodes.last().id == id,
        w.nodes.last().data.name@ == "Sweep"@,
        w.nodes.last().data.kind matches NodeKind::Mesh { mesh, .. } && mesh == AssetId(id.0),
        mesh_def(w.store, AssetId(id.0)) matches Some(d) && d.stack.base == MeshBase::Sweep(def)
            && d.source == Some(CapturedSource::Sweep(def)) && d.stack.modifiers@.len() == 0
            && d.label@ == "Sweep"@ && d.editable,
        r == Ok::<Seq<EditorCommand>, EditorError>(
            seq![
                EditorCommand::Delete { id },
                EditorCommand::Asset(AssetCommand::DeleteAsset { id: AssetId(id.0) }),
            ],
        ),
{
    assert(exists|n: Tree|
        is_plain_node(n, id, "Sweep"@, Trs::identity()) && is_bare_mesh(
            n.data.kind,
            AssetId(id.0),
        ) && w.nodes == #[trigger] added(v.nodes, None, None, n));
    let n = choose|n: Tree|
        is_plain_node(n, id, "Sweep"@, Trs::identity()) && is_bare_mesh(
            n.data.kind,
            AssetId(id.0),
        ) && w.nodes == #[trigger] added(v.nodes, None, None, n);
    assert(w.nodes.last() == n);
    assert(w.nodes.drop_last() =~= v.nodes);
}

/// A primitive is named after its shape.
pub proof fn law_primitive_is_named_after_its_shape(shape: PrimitiveShape)
    ensures
        shape is Plane ==> primitive_name(shape) == "Plane"@,
        shape is Box ==> primitive_name(shape) == "Box"@,
        shape is Sphere ==> primitive_name(shape) == "Sphere"@,
        shape is Cylinder ==> primitive_name(shape) == "Cylinder"@,
        shape is Cone ==> primitive_name(shape) == "Cone"@,
        shape is Torus ==> primitive_name(shape) == "Torus"@,
{
}

/// A cluster mesh comes in as a node at the end that draws the asset, and an asset that
/// is found at the given place; the other nodes and assets stay.
pub proof fn law_cluster_mesh_comes_from_its_place<
    F: Fn(&ModifierStack, &VertexOverrides, &Table<MeshData>) -> MeshData,
>(
    eval: F,
    v: WorkView,
    node: NodeId,
    asset: AssetId,
    url: String,
    w: WorkView,
    r: Result<Seq<EditorCommand>, EditorError>,
    k: u128,
)
    requires
        edit_step(eval, v, EditorCommand::ImportNaniteAsset { node, asset, url }, w, r),
    ensures
        w.nodes.len() == v.nodes.len() + 1,
        w.nodes.drop_last() == v.nodes,
        w.nodes.last().id == node,
        w.nodes.last().data.name@ == "Nanite Mesh"@,
        w.nodes.last().data.transform == Trs::identity(),
        w.nodes.last().data.visible && !w.nodes.last().data.locked,
        w.nodes.last().data.kind matches NodeKind::ClusterMesh { source, palette, .. } && source
            == asset && palette.variants@.len() == 0,
        w.store.assets.contains_key(asset.0),
        w.store.assets[asset.0].source == AssetSource::Url(url),
        k != asset.0 ==> w.store.assets.contains_key(k) == v.store.assets.contains_key(k)
            && w.store.assets[k] == v.store.assets[k],
        w.store.geometry == v.store.geometry,
        r == Ok::<Seq<EditorCommand>, EditorError>(seq![EditorCommand::Delete { id: node }]),
{
    assert(exists|n: Tree|
        is_plain_node(n, node, "Nanite Mesh"@, Trs::identity()) && is_cluster_mesh(
            n.data.kind,
            asset,
        ) && w.nodes == #[trigger] added(v.nodes, None, None, n));
    let n = choose|n: Tree|
        is_plain_node(n, node, "Nanite Mesh"@, Trs::identity()) && is_cluster_mesh(
            n.data.kind,
            asset,
        ) && w.nodes == #[trigger] added(v.nodes, None, None, n);
    assert(w.nodes.last() == n);
    assert(w.nodes.drop_last() =~= v.nodes);
}

/// The project that one starts with is a new project without its light: nothing is in
/// it, nothing plays, nothing was counted and nothing is to be saved.
pub proof fn law_first_project_is_a_new_one(
    v: WorkView,
    includes: Seq<&'static str>,
    inputs: Seq<&'static str>,
    light: Tree,
)
    requires
        just_started(v, includes, inputs),
    ensures
        new_project(v, light).timeline == v.timeline,
        new_project(v, light).library.materials =~= v.library.materials,
        new_project(v, light).library.current == v.library.current,
        new_project(v, light).store == v.store,
        new_project(v, light).world == v.world,
        new_project(v, light).session.selected =~= v.session.selected,
        new_project(v, light).project_name == v.project_name,
        new_project(v, light).dirty == v.dirty,
        v.nodes.len() == 0 && v.store.geometry.len() == 0 && v.store.assets.len() == 0,
        v.timeline.clips.len() == 0 && v.timeline.layers.len() == 0 && !v.timeline.playing,
        v.timeline.fps == 30 && v.timeline.playhead == (F64 { bits: 0 }),
        v.structure_rev == 0 && v.external_rev == 0 && v.scene_revision == 0,
        v.anim_revision == 0 && v.mesh_revision == 0,
        v.includes == includes && v.inputs == inputs,
{
}

} // verus!
