//! What the undo log rests on: what a refused command leaves behind, and that the
//! commands an edit hands back lead to the project before it, for an edit on its
//! own and for a batch.
use crate::asset_edit::{asset_step, AssetCommand};
use crate::assets::{MeshData, ModifierStack, VertexOverrides};
use crate::command::{edit_key, EditorCommand};
use crate::controller::{
    dispatch_batch_step, goes_on, recorded, set_back, unwound, ControllerView,
};
use crate::custom_material::{is_material, material_at, CustomMaterial};
use crate::errors::EditorError;
use crate::find::{lemma_first, lemma_first_is};
use crate::ids::{AssetId, NodeId};
use crate::history::{lemma_overdue, overdue};
use crate::library_edit::{
    authored_alike, edited_id, law_material_edit_is_undone, library_step, library_undoable,
    LibraryCommand,
};
use crate::mesh_edit::{
    law_mesh_edit_is_undone, mesh_def, mesh_leads, mesh_step, with_def, MeshCommand, StoreView,
};
use crate::mixer::{law_mixer_edit_is_undone, mixer_inverse, mixer_undoable};
use crate::node::NodeKind;
use crate::node_edit::{
    law_node_edit_is_undone, node_step, taken_transform, NodeCommand, NodeReply,
};
use crate::reseed::{law_scene_leads_back, scene_leads_back, scenes_alike};
use crate::scene_edit::{
    by_node, editable_mesh, insert_step, is_split_node, lowered, node_mesh_step, split_added,
    split_cut, split_restores, InsertSpec, Inserted, Split,
};
use crate::skin::law_weights_are_restored;
use crate::table::Table;
use crate::timeline::{
    clip_after, clip_inverse, law_clip_edit_is_undone, law_track_edit_is_undone, track_step,
    track_undoable, ClipCommand, MixerCommand, TrackCommand,
};
use crate::tree::{added, find, lemma_find, put, removed, within, Tree};
use crate::tree_edit::{
    at_rest, copied, copy_renaming, duplicate_step, former_poses, law_added_tracks_are_taken_back,
    law_reparent_is_undone, law_reset_pose_is_undone, lemma_copy_is_named, lemma_former_poses,
    lemma_rested, new_tracks, own_ids, parent_of, pruned, reposed, shrunk,
};
use crate::tree_laws::{
    distinct, law_delete_is_undone, law_insert_is_undone, law_put_changes_one_node,
    lemma_not_below_itself, lemma_place_is_within,
};
use crate::values::Trs;
use crate::workspace::{
    asset_row, assets_row, clip_row, insert_row, library_row, mesh_row, mixer_row, node_row,
    pose_row, purged, redefines, restores, split_row, track_row, untrack_row, work_step, WorkView,
};
use crate::world::law_world_edit_is_undone;
use vstd::prelude::*;

verus! {

/// A row of commands one of which is refused changes nothing: the project, what the
/// window shows and both logs are as before, and only the counts of changes go on.
pub proof fn law_refused_batch_changes_nothing<
    F: Fn(&ModifierStack, &VertexOverrides, &Table<MeshData>) -> MeshData,
>(eval: F, v: ControllerView, cmds: Seq<EditorCommand>, w: ControllerView, e: EditorError)
    requires
        dispatch_batch_step(eval, v, cmds, w, Err(e)),
    ensures
        w.undo == v.undo,
        w.redo == v.redo,
        w.work == set_back(v.work, w.work),
        e is InBatch,
{
}

/// A command that is refused changes nothing.
pub proof fn law_refused_command_changes_nothing<
    F: Fn(&ModifierStack, &VertexOverrides, &Table<MeshData>) -> MeshData,
>(eval: F, v: WorkView, cmd: EditorCommand, w: WorkView, e: EditorError)
    requires
        work_step(eval, v, cmd, w, Err(e)),
    ensures
        w == v,
{
    reveal(work_step);
    match cmd {
        EditorCommand::Clip(c) => {
            assert(clip_after(v.timeline, c) =~= v.timeline);
            assert(w =~= v);
        },
        _ => {},
    }
}

/// Whether two workspaces hold the same project: what the window shows, what is
/// to be saved and the counts of changes are left aside; and so is the geometry that
/// was baked, unless `deep`.
pub open spec fn same_project(a: WorkView, b: WorkView, deep: bool) -> bool {
    &&& a.nodes == b.nodes
    &&& a.store.assets == b.store.assets
    &&& deep ==> a.store.geometry == b.store.geometry
    &&& a.library == b.library
    &&& a.timeline == b.timeline
    &&& a.world == b.world
    &&& a.skins == b.skins
}

/// Whether a command goes through and leads from one state to another.
pub open spec fn leads<F: Fn(&ModifierStack, &VertexOverrides, &Table<MeshData>) -> MeshData>(
    eval: F,
    a: WorkView,
    cmd: EditorCommand,
    b: WorkView,
) -> bool {
    exists|row: Seq<EditorCommand>| #[trigger] work_step(eval, a, cmd, b, Ok(row))
}

/// Whether commands that all go through lead from state to state.
pub open spec fn run<F: Fn(&ModifierStack, &VertexOverrides, &Table<MeshData>) -> MeshData>(
    eval: F,
    states: Seq<WorkView>,
    cmds: Seq<EditorCommand>,
) -> bool {
    &&& states.len() == cmds.len() + 1
    &&& forall|i: int|
        0 <= i < cmds.len() ==> leads(eval, states[i], #[trigger] cmds[i], states[i + 1])
}

/// Whether commands lead from wherever the project is that of `s` to where it is
/// that of `t`.
pub open spec fn takes_back<
    F: Fn(&ModifierStack, &VertexOverrides, &Table<MeshData>) -> MeshData,
>(eval: F, s: WorkView, row: Seq<EditorCommand>, t: WorkView, deep: bool) -> bool {
    forall|states: Seq<WorkView>|
        #[trigger] run(eval, states, row) && same_project(states[0], s, deep) ==> same_project(
            states.last(),
            t,
            deep,
        )
}

/// Whether an edit is one that its inverse takes back exactly. A collider that
/// has a scale, a length that is negative, a weight outside its range, keys that
/// are out of order and places beyond the end cannot be set again; and a clip
/// that drives nothing that is left goes when a node is deleted.
pub open spec fn exact(v: WorkView, cmd: EditorCommand) -> bool {
    match cmd {
        EditorCommand::Node(c) => c.edit is SetTransform ==> {
            let d = find(v.nodes, c.node)->0.data;
            taken_transform(d.kind, d.transform) == d.transform
        },
        EditorCommand::CopyMaterialInstance { .. } => true,
        EditorCommand::Reparent { .. } => distinct(v.nodes),
        EditorCommand::Delete { id } => distinct(v.nodes) && pruned(
            v.timeline,
            removed(v.nodes, id),
        ) == v.timeline,
        EditorCommand::InsertTree { tree, .. } => !within(v.nodes, tree.id) && pruned(
            v.timeline,
            v.nodes,
        ) == v.timeline,
        EditorCommand::Asset(c) => c matches AssetCommand::RestoreAsset { id, .. }
            ==> !v.store.assets.contains_key(id.0),
        EditorCommand::World(c) => c is SetShadowsSscs ==> v.world.shadows.sscs_step_count >= 1,
        EditorCommand::Clip(c) => c matches ClipCommand::SetClipDuration { id, .. }
            ==> v.timeline.clip(id).duration.floored() == v.timeline.clip(id).duration,
        EditorCommand::Track(c) => track_undoable(v.timeline, c),
        EditorCommand::Mixer(c) => mixer_undoable(v.timeline, c),
        EditorCommand::SetSkinWeights { .. } => true,
        EditorCommand::PurgeUnusedAssets { .. } => true,
        EditorCommand::Mesh(_) => true,
        EditorCommand::NodeMesh(_) => true,
        EditorCommand::SeparateMesh(s) => !v.store.assets.contains_key(s.new_node.0) && pruned(
            v.timeline,
            v.nodes,
        ) == v.timeline,
        _ => false,
    }
}

proof fn lemma_node_back<
    F: Fn(&ModifierStack, &VertexOverrides, &Table<MeshData>) -> MeshData,
>(
    eval: F,
    v: WorkView,
    c: NodeCommand,
    w: WorkView,
    row: Seq<EditorCommand>,
    a: WorkView,
    x: WorkView,
    deep: bool,
)
    requires
        exact(v, EditorCommand::Node(c)),
        work_step(eval, v, EditorCommand::Node(c), w, Ok(row)),
        row.len() > 0,
        same_project(a, w, deep),
        leads(eval, a, row[0], x),
    ensures
        same_project(x, v, deep),
        row.len() == 1,
{
    reveal(work_step);
    let reply = choose|reply: NodeReply| #[trigger]
        node_step(v.nodes, c, v.library.materials, w.nodes, Ok(reply)) && row == node_row(
            reply.inverse,
        );
    let inv = reply.inverse->0;
    let rr = choose|rr: Seq<EditorCommand>| #[trigger] work_step(eval, a, row[0], x, Ok(rr));
    let back = choose|back: NodeReply| #[trigger]
        node_step(a.nodes, inv, a.library.materials, x.nodes, Ok(back)) && rr == node_row(
            back.inverse,
        );
    law_node_edit_is_undone(
        v.nodes,
        c,
        v.library.materials,
        w.nodes,
        reply,
        a.library.materials,
        x.nodes,
        Ok(back),
    );
}

proof fn lemma_tree_back<
    F: Fn(&ModifierStack, &VertexOverrides, &Table<MeshData>) -> MeshData,
>(
    eval: F,
    v: WorkView,
    cmd: EditorCommand,
    w: WorkView,
    row: Seq<EditorCommand>,
    a: WorkView,
    x: WorkView,
    deep: bool,
)
    requires
        cmd is Reparent || cmd is Delete || cmd is InsertTree,
        exact(v, cmd),
        work_step(eval, v, cmd, w, Ok(row)),
        row.len() > 0,
        same_project(a, w, deep),
        leads(eval, a, row[0], x),
    ensures
        same_project(x, v, deep),
        row.len() == 1,
{
    reveal(work_step);
    let rr = choose|rr: Seq<EditorCommand>| #[trigger] work_step(eval, a, row[0], x, Ok(rr));
    match cmd {
        EditorCommand::Reparent { id, new_parent, index } => {
            if let EditorCommand::Reparent { new_parent: p, index: Some(k), .. } = row[0] {
                law_reparent_is_undone(v.nodes, id, new_parent, index, p, k);
            }
        },
        EditorCommand::Delete { id } => {
            if let EditorCommand::InsertTree { parent, index: Some(k), .. } = row[0] {
                lemma_find(v.nodes, id);
                law_delete_is_undone(v.nodes, id, parent, k);
                crate::tree_laws::lemma_place_is_within(v.nodes, id, None);
                if let Some(p) = parent {
                    crate::tree_laws::lemma_parent_outside(v.nodes, id, None);
                    crate::tree_laws::lemma_survives(v.nodes, id, p);
                }
            }
        },
        EditorCommand::InsertTree { tree, parent, index } => {
            law_insert_is_undone(v.nodes, parent, index, tree.model());
        },
        _ => {},
    }
}

proof fn lemma_timeline_back<
    F: Fn(&ModifierStack, &VertexOverrides, &Table<MeshData>) -> MeshData,
>(
    eval: F,
    v: WorkView,
    cmd: EditorCommand,
    w: WorkView,
    row: Seq<EditorCommand>,
    a: WorkView,
    x: WorkView,
    deep: bool,
)
    requires
        cmd is Clip || cmd is Track || cmd is Mixer,
        exact(v, cmd),
        work_step(eval, v, cmd, w, Ok(row)),
        row.len() > 0,
        same_project(a, w, deep),
        leads(eval, a, row[0], x),
    ensures
        same_project(x, v, deep),
        row.len() == 1,
{
    reveal(work_step);
    let rr = choose|rr: Seq<EditorCommand>| #[trigger] work_step(eval, a, row[0], x, Ok(rr));
    match cmd {
        EditorCommand::Clip(c) => {
            let inv = choose|inv: Option<ClipCommand>| #[trigger]
                clip_inverse(v.timeline, c, inv) && row == clip_row(inv);
            law_clip_edit_is_undone(v.timeline, c, inv->0);
        },
        EditorCommand::Track(c) => {
            let inv = choose|inv: Option<TrackCommand>| #[trigger]
                track_step(v.timeline, c, v.nodes, v.library.materials, w.timeline, Ok(inv)) && row
                    == track_row(inv);
            law_track_edit_is_undone(
                v.timeline,
                c,
                v.nodes,
                v.library.materials,
                inv->0,
                a.nodes,
                a.library.materials,
            );
        },
        EditorCommand::Mixer(c) => {
            let inv = choose|inv: Option<MixerCommand>| #[trigger]
                mixer_inverse(v.timeline, c, inv) && row == mixer_row(inv);
            law_mixer_edit_is_undone(v.timeline, c, inv->0);
        },
        _ => {},
    }
}

proof fn lemma_table_back<
    F: Fn(&ModifierStack, &VertexOverrides, &Table<MeshData>) -> MeshData,
>(
    eval: F,
    v: WorkView,
    cmd: EditorCommand,
    w: WorkView,
    row: Seq<EditorCommand>,
    a: WorkView,
    x: WorkView,
    deep: bool,
)
    requires
        cmd is Asset || cmd is World || cmd is SetSkinWeights || cmd is CopyMaterialInstance,
        exact(v, cmd),
        work_step(eval, v, cmd, w, Ok(row)),
        row.len() > 0,
        same_project(a, w, deep),
        leads(eval, a, row[0], x),
    ensures
        same_project(x, v, deep),
        row.len() == 1,
{
    reveal(work_step);
    let rr = choose|rr: Seq<EditorCommand>| #[trigger] work_step(eval, a, row[0], x, Ok(rr));
    match cmd {
        EditorCommand::Asset(c) => {
            let inv = choose|inv: Option<AssetCommand>| #[trigger]
                asset_step(
                    v.store.assets,
                    v.session.asset_selection,
                    c,
                    w.store.assets,
                    w.session.asset_selection,
                    Ok(inv),
                ) && row == asset_row(inv);
            let back = choose|back: Option<AssetCommand>| #[trigger]
                asset_step(
                    a.store.assets,
                    a.session.asset_selection,
                    inv->0,
                    x.store.assets,
                    x.session.asset_selection,
                    Ok(back),
                ) && rr == asset_row(back);
            lemma_asset_back(
                v.store.assets,
                v.session.asset_selection,
                c,
                w.store.assets,
                w.session.asset_selection,
                inv->0,
                a.session.asset_selection,
                x.store.assets,
                x.session.asset_selection,
                Ok(back),
            );
            assert(x.store.assets =~= v.store.assets);
        },
        EditorCommand::World(c) => {
            law_world_edit_is_undone(v.world, c);
        },
        EditorCommand::SetSkinWeights { node, entries } => {
            let s = v.skins[node.0];
            let t = w.skins[node.0];
            law_weights_are_restored(s, entries@, t);
            crate::skin::lemma_former_again(s, entries@, t);
            assert(x.skins =~= v.skins);
        },
        EditorCommand::CopyMaterialInstance { from, to } => {
            let t = find(v.nodes, to)->0;
            let d2 = find(w.nodes, to)->0.data;
            lemma_find(v.nodes, to);
            crate::tree_laws::law_put_changes_one_node(
                v.nodes,
                to,
                crate::tree::NodeData { kind: d2.kind, ..t.data },
                to,
            );
            crate::tree_laws::law_put_is_undone(
                v.nodes,
                to,
                crate::tree::NodeData { kind: d2.kind, ..t.data },
            );
            assert(d2 == (crate::tree::NodeData { kind: d2.kind, ..t.data }));
            assert(crate::tree::NodeData { kind: t.data.kind, ..d2 } == t.data);
        },
        _ => {},
    }
}

proof fn lemma_asset_back(
    a: Map<u128, crate::assets::AssetEntry>,
    sel: Option<crate::ids::AssetId>,
    cmd: AssetCommand,
    a2: Map<u128, crate::assets::AssetEntry>,
    sel2: Option<crate::ids::AssetId>,
    inv: AssetCommand,
    other: Option<crate::ids::AssetId>,
    a3: Map<u128, crate::assets::AssetEntry>,
    sel3: Option<crate::ids::AssetId>,
    r: Result<Option<AssetCommand>, EditorError>,
)
    requires
        asset_step(a, sel, cmd, a2, sel2, Ok(Some(inv))),
        asset_step(a2, other, inv, a3, sel3, r),
        cmd matches AssetCommand::RestoreAsset { id, .. } ==> !a.contains_key(id.0),
    ensures
        a3 == a,
        r is Ok,
{
    match cmd {
        AssetCommand::SetTextureExport { id, export } => {
            assert(crate::assets::AssetEntry {
                texture_export: a[id.0].texture_export,
                ..a2[id.0]
            } == a[id.0]);
        },
        _ => {},
    }
    assert(a3 =~= a);
}

/// Whether commands are edits of meshes, one after the other.
proof fn lemma_mesh_rows_run<
    F: Fn(&ModifierStack, &VertexOverrides, &Table<MeshData>) -> MeshData,
>(eval: F, states: Seq<WorkView>, inv: Seq<MeshCommand>, n: int)
    requires
        run(eval, states, mesh_row(inv)),
        0 <= n <= inv.len(),
    ensures
        states[n].selections == states[0].selections,
        same_project(
            states[n],
            WorkView { store: states[n].store, ..states[0] },
            true,
        ),
        forall|i: int|
            0 <= i < n ==> mesh_leads(
                eval,
                states[0].selections,
                states[i].store,
                #[trigger] inv[i],
                states[i + 1].store,
            ),
    decreases n,
{
    if n > 0 {
        reveal(work_step);
        let m = n - 1;
        lemma_mesh_rows_run(eval, states, inv, m);
        let a = states[m];
        let b = states[n];
        assert(leads(eval, states[m], mesh_row(inv)[m], states[m + 1]));
        let rr = choose|rr: Seq<EditorCommand>| #[trigger]
            work_step(eval, a, mesh_row(inv)[m], b, Ok(rr));
        let back = choose|back: Seq<MeshCommand>| #[trigger]
            mesh_step(eval, a.selections, a.store, inv[m], b.store, Ok(back)) && rr == mesh_row(
                back,
            );
        assert(mesh_leads(eval, states[0].selections, states[m].store, inv[m], states[n].store));
    }
}

/// The stores of some workspaces.
spec fn stores(states: Seq<WorkView>) -> Seq<StoreView> {
    Seq::new(states.len(), |i: int| states[i].store)
}

proof fn lemma_meshes_back<
    F: Fn(&ModifierStack, &VertexOverrides, &Table<MeshData>) -> MeshData,
>(
    eval: F,
    v: WorkView,
    low: MeshCommand,
    w: WorkView,
    inv: Seq<MeshCommand>,
    states: Seq<WorkView>,
)
    requires
        mesh_step(eval, v.selections, v.store, low, w.store, Ok(inv)),
        w == (WorkView { store: w.store, scene_revision: w.scene_revision, ..v }),
        inv.len() > 0,
        run(eval, states, mesh_row(inv)),
        same_project(states[0], w, false),
    ensures
        same_project(states.last(), v, false),
{
    let n = inv.len() as int;
    lemma_mesh_rows_run(eval, states, inv, n);
    let row = stores(states);
    assert forall|i: int| 0 <= i < inv.len() implies mesh_leads(
        eval,
        states[0].selections,
        row[i],
        #[trigger] inv[i],
        row[i + 1],
    ) by {}
    law_mesh_edit_is_undone(
        eval,
        v.selections,
        v.store,
        low,
        w.store,
        inv,
        states[0].selections,
        row,
    );
    assert(row.last() == states.last().store);
}

proof fn lemma_split_back<
    F: Fn(&ModifierStack, &VertexOverrides, &Table<MeshData>) -> MeshData,
>(
    eval: F,
    v: WorkView,
    s: Split,
    w: WorkView,
    row: Seq<EditorCommand>,
    states: Seq<WorkView>,
)
    requires
        work_step(eval, v, EditorCommand::SeparateMesh(s), w, Ok(row)),
        row.len() > 0,
        exact(v, EditorCommand::SeparateMesh(s)),
        run(eval, states, row),
        same_project(states[0], w, false),
    ensures
        same_project(states.last(), v, false),
{
    reveal(work_step);
    let mesh = editable_mesh(v.nodes, v.store.geometry, s.node)->Ok_0;
    let n = choose|n: Tree|
        is_split_node(n, s, find(v.nodes, s.node)->0.data) && w.nodes == #[trigger] added(
            v.nodes,
            parent_of(v.nodes, s.node),
            None,
            n,
        );
    let new = AssetId(s.new_node.0);
    lemma_find(v.nodes, s.node);
    lemma_place_is_within(v.nodes, s.node, None);
    law_insert_is_undone(v.nodes, parent_of(v.nodes, s.node), None, n);
    let a = states[0];
    let b = states[1];
    let c = states[2];
    assert(row[0] == EditorCommand::Delete { id: s.new_node });
    assert(row[1] == EditorCommand::Asset(AssetCommand::DeleteAsset { id: new }));
    assert(leads(eval, states[0], row[0], states[1]));
    assert(leads(eval, states[1], row[1], states[2]));
    let r0 = choose|r0: Seq<EditorCommand>| #[trigger] work_step(eval, a, row[0], b, Ok(r0));
    let r1 = choose|r1: Seq<EditorCommand>| #[trigger] work_step(eval, b, row[1], c, Ok(r1));
    assert(c.store.assets =~= w.store.assets.remove(new.0));
    if s.keep_remainder {
        let m = choose|m: StoreView| #[trigger]
            split_added(v.store, s, m) && split_cut(m, mesh, s.remainder, w.store) && row
                == split_row(s, split_restores(m, mesh));
        let back = split_restores(m, mesh);
        let x = states[3];
        assert(row[2] == EditorCommand::Mesh(back[0]));
        assert(leads(eval, states[2], row[2], states[3]));
        let r2 = choose|r2: Seq<EditorCommand>| #[trigger] work_step(eval, c, row[2], x, Ok(r2));
        let inv = choose|inv: Seq<MeshCommand>| #[trigger]
            mesh_step(eval, c.selections, c.store, back[0], x.store, Ok(inv)) && r2 == mesh_row(
                inv,
            );
        assert(states.last() == x);
        assert(m.assets.remove(new.0) =~= v.store.assets);
        if mesh_def(m, mesh) is Some && mesh != new {
            let d2 = mesh_def(w.store, mesh)->0;
            assert(w.store.assets == with_def(m, mesh, d2).assets);
            assert(c.store.assets[mesh.0] == w.store.assets[mesh.0]);
            assert(mesh_def(c.store, mesh) == Some(d2));
            assert(x.store.assets =~= v.store.assets);
        } else {
            assert(x.store.assets =~= v.store.assets);
        }
    } else {
        assert(row =~= split_row(s, seq![]));
        assert(states.last() == c);
        assert(c.store.assets =~= v.store.assets);
    }
}

proof fn lemma_restores_run<
    F: Fn(&ModifierStack, &VertexOverrides, &Table<MeshData>) -> MeshData,
>(eval: F, states: Seq<WorkView>, inv: Seq<AssetCommand>, n: int)
    requires
        run(eval, states, assets_row(inv)),
        forall|i: int| 0 <= i < inv.len() ==> #[trigger] inv[i] is RestoreAsset,
        0 <= n <= inv.len(),
    ensures
        same_project(
            states[n],
            WorkView {
                store: StoreView { assets: states[n].store.assets, ..states[0].store },
                ..states[0]
            },
            true,
        ),
        forall|k: u128|
            (forall|i: int| 0 <= i < n ==> (#[trigger] inv[i])->RestoreAsset_id.0 != k) ==> {
                &&& #[trigger] states[n].store.assets.contains_key(k)
                    == states[0].store.assets.contains_key(k)
                &&& states[n].store.assets[k] == states[0].store.assets[k]
            },
        forall|i: int|
            0 <= i < n ==> {
                &&& states[n].store.assets.contains_key((#[trigger] inv[i])->RestoreAsset_id.0)
                &&& exists|j: int|
                    0 <= j < n && (#[trigger] inv[j])->RestoreAsset_id == inv[i]->RestoreAsset_id
                        && states[n].store.assets[inv[i]->RestoreAsset_id.0]
                        == inv[j]->RestoreAsset_entry
            },
    decreases n,
{
    if n > 0 {
        reveal(work_step);
        let m = n - 1;
        lemma_restores_run(eval, states, inv, m);
        let a = states[m];
        let b = states[n];
        assert(leads(eval, states[m], assets_row(inv)[m], states[m + 1]));
        let rr = choose|rr: Seq<EditorCommand>| #[trigger]
            work_step(eval, a, assets_row(inv)[m], b, Ok(rr));
        let id = inv[m]->RestoreAsset_id;
        assert(b.store.assets == a.store.assets.insert(id.0, inv[m]->RestoreAsset_entry));
        assert forall|k: u128|
            (forall|i: int| 0 <= i < n ==> (#[trigger] inv[i])->RestoreAsset_id.0 != k) implies {
            &&& #[trigger] states[n].store.assets.contains_key(k)
                == states[0].store.assets.contains_key(k)
            &&& states[n].store.assets[k] == states[0].store.assets[k]
        } by {
            assert(inv[m]->RestoreAsset_id.0 != k);
            assert(states[m].store.assets.contains_key(k) == states[0].store.assets.contains_key(k));
        }
        assert forall|i: int| 0 <= i < n implies {
            &&& states[n].store.assets.contains_key((#[trigger] inv[i])->RestoreAsset_id.0)
            &&& exists|j: int|
                0 <= j < n && (#[trigger] inv[j])->RestoreAsset_id == inv[i]->RestoreAsset_id
                    && states[n].store.assets[inv[i]->RestoreAsset_id.0]
                    == inv[j]->RestoreAsset_entry
        } by {
            if inv[i]->RestoreAsset_id == id {
                assert(inv[m]->RestoreAsset_id == inv[i]->RestoreAsset_id);
            } else {
                assert(states[m].store.assets.contains_key(inv[i]->RestoreAsset_id.0));
                let j = choose|j: int|
                    0 <= j < m && (#[trigger] inv[j])->RestoreAsset_id == inv[i]->RestoreAsset_id
                        && states[m].store.assets[inv[i]->RestoreAsset_id.0]
                        == inv[j]->RestoreAsset_entry;
                assert(inv[j]->RestoreAsset_id == inv[i]->RestoreAsset_id);
            }
        }
    }
}

proof fn lemma_purge_back<
    F: Fn(&ModifierStack, &VertexOverrides, &Table<MeshData>) -> MeshData,
>(
    eval: F,
    v: WorkView,
    cmd: EditorCommand,
    w: WorkView,
    row: Seq<EditorCommand>,
    states: Seq<WorkView>,
    deep: bool,
)
    requires
        cmd is PurgeUnusedAssets,
        work_step(eval, v, cmd, w, Ok(row)),
        run(eval, states, row),
        same_project(states[0], w, deep),
    ensures
        same_project(states.last(), v, deep),
{
    reveal(work_step);
    if let EditorCommand::PurgeUnusedAssets { roots, docs } = cmd {
        let a = v.store.assets;
        let b = purged(a, roots@, docs@);
        let inv = choose|inv: Seq<AssetCommand>| #[trigger]
            restores(a, b, inv) && row == assets_row(inv);
        let n = inv.len() as int;
        assert forall|i: int| 0 <= i < inv.len() implies #[trigger] inv[i] is RestoreAsset by {}
        lemma_restores_run(eval, states, inv, n);
        let x = states[n].store.assets;
        assert forall|k: u128| #[trigger] x.contains_key(k) == a.contains_key(k) && (
        a.contains_key(k) ==> x[k] == a[k]) by {
            if a.contains_key(k) && !b.contains_key(k) {
                let i = choose|i: int|
                    0 <= i < inv.len() && #[trigger] inv[i] == (AssetCommand::RestoreAsset {
                        id: AssetId(k),
                        entry: a[k],
                    });
                assert(x.contains_key(inv[i]->RestoreAsset_id.0));
                let j = choose|j: int|
                    0 <= j < n && (#[trigger] inv[j])->RestoreAsset_id == inv[i]->RestoreAsset_id
                        && x[inv[i]->RestoreAsset_id.0] == inv[j]->RestoreAsset_entry;
                assert(inv[j] is RestoreAsset);
            } else {
                assert forall|i: int| 0 <= i < n implies (#[trigger] inv[i])->RestoreAsset_id.0
                    != k by {}
                assert(x.contains_key(k) == states[0].store.assets.contains_key(k));
            }
        }
        assert(x =~= a);
    }
}

/// Whether an edit may bake geometry that its inverse does not put back as it was.
pub open spec fn rebakes(cmd: EditorCommand) -> bool {
    cmd is Mesh || cmd is NodeMesh || cmd is SeparateMesh
}

/// What an edit hands back leads to the project before it. For edits of meshes that
/// is said of their definitions, not of the geometry baked from them.
pub proof fn law_edit_is_taken_back<
    F: Fn(&ModifierStack, &VertexOverrides, &Table<MeshData>) -> MeshData,
>(eval: F, v: WorkView, cmd: EditorCommand, w: WorkView, row: Seq<EditorCommand>, deep: bool)
    requires
        work_step(eval, v, cmd, w, Ok(row)),
        row.len() > 0,
        exact(v, cmd),
        deep ==> !rebakes(cmd),
    ensures
        takes_back(eval, w, row, v, deep),
{
    assert forall|states: Seq<WorkView>|
        #[trigger] run(eval, states, row) && same_project(states[0], w, deep) implies same_project(
        states.last(),
        v,
        deep,
    ) by {
        let a = states[0];
        let x = states[1];
        assert(leads(eval, states[0], row[0], states[1]));
        if cmd is SeparateMesh {
            lemma_split_back(eval, v, cmd->SeparateMesh_0, w, row, states);
        } else if cmd is PurgeUnusedAssets {
            lemma_purge_back(eval, v, cmd, w, row, states, deep);
        } else if cmd is Mesh {
            reveal(work_step);
            let c = cmd->Mesh_0;
            let inv = choose|inv: Seq<MeshCommand>| #[trigger]
                mesh_step(eval, v.selections, v.store, c, w.store, Ok(inv)) && row == mesh_row(inv);
            lemma_meshes_back(eval, v, c, w, inv, states);
        } else if cmd is NodeMesh {
            reveal(work_step);
            let c = cmd->NodeMesh_0;
            let inv = choose|inv: Seq<MeshCommand>| #[trigger]
                node_mesh_step(eval, v.selections, v.nodes, v.store, c, w.store, Ok(inv)) && row
                    == mesh_row(inv);
            let mesh = editable_mesh(v.nodes, v.store.geometry, by_node(c).0)->Ok_0;
            let low = choose|low: MeshCommand|
                lowered(c, mesh, v.store.geometry[mesh.0].positions@.len(), low)
                    && #[trigger] mesh_step(eval, v.selections, v.store, low, w.store, Ok(inv));
            lemma_meshes_back(eval, v, low, w, inv, states);
        } else if cmd is Node {
            lemma_node_back(eval, v, cmd->Node_0, w, row, a, x, deep);
        } else if cmd is Reparent || cmd is Delete || cmd is InsertTree {
            lemma_tree_back(eval, v, cmd, w, row, a, x, deep);
        } else if cmd is Clip || cmd is Track || cmd is Mixer {
            lemma_timeline_back(eval, v, cmd, w, row, a, x, deep);
        } else {
            lemma_table_back(eval, v, cmd, w, row, a, x, deep);
        }
    }
}

proof fn lemma_run_split<
    F: Fn(&ModifierStack, &VertexOverrides, &Table<MeshData>) -> MeshData,
>(eval: F, states: Seq<WorkView>, front: Seq<EditorCommand>, back: Seq<EditorCommand>)
    requires
        run(eval, states, front + back),
    ensures
        run(eval, states.take(front.len() as int + 1), front),
        run(eval, states.skip(front.len() as int), back),
{
    let n = front.len() as int;
    let all = front + back;
    let first = states.take(n + 1);
    let last = states.skip(n);
    assert forall|i: int| 0 <= i < front.len() implies leads(
        eval,
        first[i],
        #[trigger] front[i],
        first[i + 1],
    ) by {
        assert(all[i] == front[i]);
    }
    assert forall|i: int| 0 <= i < back.len() implies leads(
        eval,
        last[i],
        #[trigger] back[i],
        last[i + 1],
    ) by {
        assert(all[n + i] == back[i]);
        assert(leads(eval, states[n + i], all[n + i], states[n + i + 1]));
    }
}

/// Where every edit of a batch is taken back by what it handed back, the batch
/// is: what it hands back as a whole leads to the project before its first edit.
pub proof fn law_batch_is_taken_back<
    F: Fn(&ModifierStack, &VertexOverrides, &Table<MeshData>) -> MeshData,
>(eval: F, states: Seq<WorkView>, rows: Seq<Seq<EditorCommand>>, deep: bool)
    requires
        states.len() == rows.len() + 1,
        forall|i: int|
            0 <= i < rows.len() ==> takes_back(
                eval,
                states[i + 1],
                #[trigger] rows[i],
                states[i],
                deep,
            ),
    ensures
        takes_back(eval, states.last(), unwound(rows), states[0], deep),
    decreases rows.len(),
{
    if rows.len() == 0 {
        assert forall|other: Seq<WorkView>|
            #[trigger] run(eval, other, unwound(rows)) && same_project(
                other[0],
                states.last(),
                deep,
            ) implies same_project(other.last(), states[0], deep) by {}
    } else {
        let n = rows.len() - 1;
        let rest = rows.drop_last();
        assert forall|i: int| 0 <= i < rest.len() implies takes_back(
            eval,
            states.drop_last()[i + 1],
            #[trigger] rest[i],
            states.drop_last()[i],
            deep,
        ) by {
            assert(rest[i] == rows[i]);
        }
        law_batch_is_taken_back(eval, states.drop_last(), rest, deep);
        assert(takes_back(eval, states[n + 1], rows[n], states[n], deep));
        assert forall|other: Seq<WorkView>|
            #[trigger] run(eval, other, unwound(rows)) && same_project(
                other[0],
                states.last(),
                deep,
            ) implies same_project(other.last(), states[0], deep) by {
            let k = rows[n].len() as int;
            lemma_run_split(eval, other, rows[n], unwound(rest));
            let first = other.take(k + 1);
            let last = other.skip(k);
            assert(first[0] == other[0]);
            assert(first.last() == other[k]);
            assert(last[0] == other[k]);
            assert(last.last() == other.last());
            assert(same_project(first.last(), states[n], deep));
        }
    }
}

/// Whatever is recorded as a step of its own is the step that is taken back
/// next.
pub proof fn law_recorded_step_is_next(
    v: ControllerView,
    cmd: EditorCommand,
    step: EditorCommand,
)
    requires
        !crate::command::transient(cmd),
        !goes_on(v.undo, cmd),
        v.undo.costs.len() == v.undo.steps.len(),
    ensures
        ({
            let w = recorded(v, cmd, Some(step));
            &&& w.undo.steps.len() > 0
            &&& w.undo.steps.last() == step
            &&& w.redo.steps.len() == 0
            &&& w.work.dirty
        }),
{
    let costs = v.undo.costs.push(crate::command::step_cost(step));
    lemma_overdue(costs, v.undo.budget);
    let n = overdue(costs, v.undo.budget) as int;
    assert(v.undo.steps.push(step).skip(n).last() == step);
}

/// An edit that goes on with the one before it adds no step: the step that is
/// there takes both back.
pub proof fn law_continuous_edit_is_one_step(
    v: ControllerView,
    cmd: EditorCommand,
    step: EditorCommand,
)
    requires
        goes_on(v.undo, cmd),
    ensures
        recorded(v, cmd, Some(step)).undo == v.undo,
{
}

/// After an edit is recorded as a step of its own, the edits that go on with it are
/// those with its key, whatever the step that takes it back is.
pub proof fn law_step_goes_by_its_edit(
    v: ControllerView,
    cmd: EditorCommand,
    step: EditorCommand,
    next: EditorCommand,
)
    requires
        !crate::command::transient(cmd),
        !goes_on(v.undo, cmd),
        v.undo.keys.len() == v.undo.costs.len(),
    ensures
        goes_on(recorded(v, cmd, Some(step)).undo, next) <==> edit_key(next) is Some && edit_key(
            next,
        ) == edit_key(cmd),
{
    let costs = v.undo.costs.push(crate::command::step_cost(step));
    lemma_overdue(costs, v.undo.budget);
    let n = overdue(costs, v.undo.budget) as int;
    assert(v.undo.keys.push(edit_key(cmd)).skip(n).last() == edit_key(cmd));
}

/// Whether poses can be set again: none of them scales a collider.
pub open spec fn settable(f: Seq<Tree>, poses: Seq<(NodeId, Trs)>) -> bool {
    forall|i: int|
        0 <= i < poses.len() && find(f, (#[trigger] poses[i]).0) is Some ==> taken_transform(
            find(f, poses[i].0)->0.data.kind,
            poses[i].1,
        ) == poses[i].1
}

proof fn lemma_poses_run<F: Fn(&ModifierStack, &VertexOverrides, &Table<MeshData>) -> MeshData>(
    eval: F,
    states: Seq<WorkView>,
    poses: Seq<(NodeId, Trs)>,
)
    requires
        run(eval, states, pose_row(poses)),
        settable(states[0].nodes, poses),
    ensures
        states.last().nodes == reposed(states[0].nodes, poses),
        same_project(states.last(), WorkView { nodes: states.last().nodes, ..states[0] }, true),
    decreases poses.len(),
{
    if poses.len() > 0 {
        reveal(work_step);
        let n = poses.len() - 1;
        let (id, t) = poses.last();
        let row = pose_row(poses);
        let rest = poses.drop_last();
        let a = states[0];
        let b = states[1];
        assert(leads(eval, states[0], row[0], states[1]));
        let cmd = NodeCommand { node: id, edit: crate::node_edit::NodeEdit::SetTransform(t) };
        assert(row[0] == EditorCommand::Node(cmd));
        let rr = choose|rr: Seq<EditorCommand>| #[trigger] work_step(eval, a, row[0], b, Ok(rr));
        let reply = choose|reply: NodeReply| #[trigger]
            node_step(a.nodes, cmd, a.library.materials, b.nodes, Ok(reply)) && rr == node_row(
                reply.inverse,
            );
        let d = find(a.nodes, id)->0.data;
        assert(poses[n] == (id, t));
        assert(b.nodes == put(a.nodes, id, at_rest(d, t)));
        lemma_find(a.nodes, id);
        assert forall|i: int|
            0 <= i < rest.len() && find(b.nodes, (#[trigger] rest[i]).0) is Some implies taken_transform(
            find(b.nodes, rest[i].0)->0.data.kind,
            rest[i].1,
        ) == rest[i].1 by {
            assert(rest[i] == poses[i]);
            law_put_changes_one_node(a.nodes, id, at_rest(d, t), rest[i].0);
        }
        let tail = states.skip(1);
        assert forall|i: int| 0 <= i < pose_row(rest).len() implies leads(
            eval,
            tail[i],
            #[trigger] pose_row(rest)[i],
            tail[i + 1],
        ) by {
            assert(row[i + 1] == pose_row(rest)[i]);
            assert(leads(eval, states[i + 1], row[i + 1], states[i + 2]));
        }
        lemma_poses_run(eval, tail, rest);
    }
}

/// What a return to the rest pose hands back leads to the poses before it. A
/// collider that has a scale is left out.
pub proof fn law_reset_is_taken_back<
    F: Fn(&ModifierStack, &VertexOverrides, &Table<MeshData>) -> MeshData,
>(eval: F, v: WorkView, id: NodeId, w: WorkView, row: Seq<EditorCommand>, deep: bool)
    requires
        work_step(eval, v, EditorCommand::ResetToBindPose { id }, w, Ok(row)),
        forall|x: NodeId|
            find(v.nodes, x) is Some ==> taken_transform(
                (#[trigger] find(v.nodes, x))->0.data.kind,
                find(v.nodes, x)->0.data.transform,
            ) == find(v.nodes, x)->0.data.transform,
    ensures
        takes_back(eval, w, row, v, deep),
{
    reveal(work_step);
    let t = find(v.nodes, id)->0;
    let poses = former_poses(v.nodes, own_ids(t), v.rest);
    law_reset_pose_is_undone(v.nodes, own_ids(t), v.rest);
    assert(settable(w.nodes, poses)) by {
        assert forall|i: int|
            0 <= i < poses.len() && find(w.nodes, (#[trigger] poses[i]).0) is Some implies taken_transform(
            find(w.nodes, poses[i].0)->0.data.kind,
            poses[i].1,
        ) == poses[i].1 by {
            lemma_former_poses(v.nodes, own_ids(t), v.rest, i);
            lemma_rested(v.nodes, own_ids(t), v.rest, poses[i].0);
        }
    }
    assert forall|states: Seq<WorkView>|
        #[trigger] run(eval, states, row) && same_project(states[0], w, deep) implies same_project(
        states.last(),
        v,
        deep,
    ) by {
        lemma_poses_run(eval, states, poses);
    }
}

proof fn lemma_untracks_run<
    F: Fn(&ModifierStack, &VertexOverrides, &Table<MeshData>) -> MeshData,
>(eval: F, states: Seq<WorkView>, at: Seq<(AssetId, usize)>)
    requires
        run(eval, states, untrack_row(at)),
    ensures
        states.last().timeline == shrunk(states[0].timeline, at),
        same_project(
            states.last(),
            WorkView { timeline: states.last().timeline, ..states[0] },
            true,
        ),
    decreases at.len(),
{
    if at.len() > 0 {
        reveal(work_step);
        let (clip, track) = at.last();
        let row = untrack_row(at);
        let rest = at.drop_last();
        let a = states[0];
        let b = states[1];
        assert(leads(eval, states[0], row[0], states[1]));
        let cmd = TrackCommand::DeleteTrack { clip, track };
        assert(row[0] == EditorCommand::Track(cmd));
        let rr = choose|rr: Seq<EditorCommand>| #[trigger] work_step(eval, a, row[0], b, Ok(rr));
        let tail = states.skip(1);
        assert forall|i: int| 0 <= i < untrack_row(rest).len() implies leads(
            eval,
            tail[i],
            #[trigger] untrack_row(rest)[i],
            tail[i + 1],
        ) by {
            assert(row[i + 1] == untrack_row(rest)[i]);
            assert(leads(eval, states[i + 1], row[i + 1], states[i + 2]));
        }
        lemma_untracks_run(eval, tail, rest);
    }
}

/// What copying a node hands back takes the copy and the tracks that drive it
/// away again, and nothing else.
pub proof fn law_copy_is_taken_back<
    F: Fn(&ModifierStack, &VertexOverrides, &Table<MeshData>) -> MeshData,
>(
    eval: F,
    v: WorkView,
    id: NodeId,
    new_id: NodeId,
    fresh: Vec<NodeId>,
    w: WorkView,
    row: Seq<EditorCommand>,
    deep: bool,
)
    requires
        work_step(eval, v, EditorCommand::Duplicate { id, new_id, fresh }, w, Ok(row)),
        distinct(v.nodes),
        !within(v.nodes, new_id),
        pruned(v.timeline, v.nodes) == v.timeline,
    ensures
        takes_back(eval, w, row, v, deep),
{
    reveal(work_step);
    let t = find(v.nodes, id)->0;
    let at = choose|at: Seq<(AssetId, usize)>| #[trigger]
        duplicate_step(v.nodes, v.timeline, id, new_id, fresh@, w.nodes, w.timeline, at) && row
            == untrack_row(at).push(EditorCommand::Delete { id: new_id });
    let m = copy_renaming(t, new_id, fresh@);
    let t2 = choose|t2: Tree| #[trigger]
        copied(t, m, t2) && w.nodes == added(v.nodes, parent_of(v.nodes, id), None, t2);
    lemma_find(v.nodes, id);
    lemma_not_below_itself(v.nodes, id);
    lemma_copy_is_named(v.nodes, id, new_id, fresh@);
    lemma_place_is_within(v.nodes, id, None);
    law_insert_is_undone(v.nodes, parent_of(v.nodes, id), None, t2);
    law_added_tracks_are_taken_back(v.timeline, new_tracks(v.timeline.clips, m), at);
    let last = seq![EditorCommand::Delete { id: new_id }];
    assert(row =~= untrack_row(at) + last);
    assert forall|states: Seq<WorkView>|
        #[trigger] run(eval, states, row) && same_project(states[0], w, deep) implies same_project(
        states.last(),
        v,
        deep,
    ) by {
        lemma_run_split(eval, states, untrack_row(at), last);
        let n = at.len() as int;
        let first = states.take(n + 1);
        let end = states.skip(n);
        lemma_untracks_run(eval, first, at);
        assert(first[0] == states[0]);
        assert(first.last() == states[n]);
        assert(end[0] == states[n]);
        assert(leads(eval, end[0], last[0], end[1]));
        assert(end[1] == states.last());
        let rr = choose|rr: Seq<EditorCommand>| #[trigger]
            work_step(eval, end[0], last[0], end[1], Ok(rr));
    }
}

/// What adding a node hands back takes the node and its mesh away again; the
/// baked geometry may stay behind.
pub proof fn law_addition_is_taken_back<
    F: Fn(&ModifierStack, &VertexOverrides, &Table<MeshData>) -> MeshData,
>(
    eval: F,
    v: WorkView,
    id: NodeId,
    spec: InsertSpec,
    parent: Option<NodeId>,
    w: WorkView,
    row: Seq<EditorCommand>,
    states: Seq<WorkView>,
)
    requires
        work_step(eval, v, EditorCommand::Insert { id, spec, parent }, w, Ok(row)),
        row.len() > 0,
        !v.store.assets.contains_key(id.0),
        pruned(v.timeline, v.nodes) == v.timeline,
        run(eval, states, row),
        same_project(states[0], w, false),
    ensures
        states.last().nodes == v.nodes,
        states.last().store.assets == v.store.assets,
        states.last().timeline == v.timeline,
        states.last().library == v.library,
        states.last().world == v.world,
        states.last().skins == v.skins,
{
    reveal(work_step);
    let done = choose|done: Inserted| #[trigger]
        insert_step(eval, v.nodes, v.store, id, spec, parent, w.nodes, w.store, done) && row
            == insert_row(id, done);
    let n = choose|n: Tree| n.id == id && w.nodes == #[trigger] added(v.nodes, parent, None, n);
    law_insert_is_undone(v.nodes, parent, None, n);
    let a = states[0];
    let b = states[1];
    assert(leads(eval, states[0], row[0], states[1]));
    let rr = choose|rr: Seq<EditorCommand>| #[trigger] work_step(eval, a, row[0], b, Ok(rr));
    if row.len() == 2 {
        let c = states[2];
        assert(leads(eval, states[1], row[1], states[2]));
        let qq = choose|qq: Seq<EditorCommand>| #[trigger] work_step(eval, b, row[1], c, Ok(qq));
        assert(c.store.assets =~= v.store.assets);
    }
}

/// Whether two rows of materials are the same but for one, which is authored alike.
pub open spec fn materials_alike(a: Seq<CustomMaterial>, b: Seq<CustomMaterial>, i: int) -> bool {
    &&& a.len() == b.len()
    &&& forall|j: int| 0 <= j < a.len() && j != i ==> #[trigger] a[j] == b[j]
    &&& 0 <= i < a.len() ==> authored_alike(a[i], b[i])
}

/// What an edit of a material hands back leads to the library before it, as far as
/// it is authored, and leaves the rest of the project as it was. The meshes that
/// follow a built-in definition lead back with it, where none of them had set a slot
/// to just what the definition was changed to.
pub proof fn law_library_edit_is_taken_back<
    F: Fn(&ModifierStack, &VertexOverrides, &Table<MeshData>) -> MeshData,
>(
    eval: F,
    v: WorkView,
    c: LibraryCommand,
    w: WorkView,
    row: Seq<EditorCommand>,
    a: WorkView,
    x: WorkView,
    deep: bool,
)
    requires
        work_step(eval, v, EditorCommand::Library(c), w, Ok(row)),
        row.len() > 0,
        library_undoable(v.library.material(edited_id(c)->0), c, v.includes, v.inputs),
        same_project(a, w, deep),
        a.includes == v.includes,
        a.inputs == v.inputs,
        leads(eval, a, row[0], x),
    ensures
        x.library.current == v.library.current,
        materials_alike(
            x.library.materials,
            v.library.materials,
            material_at(v.library.materials, edited_id(c)->0),
        ),
        same_project(x, WorkView { nodes: x.nodes, library: x.library, ..v }, deep),
        !redefines(c) ==> x.nodes == v.nodes,
        redefines(c) && scene_leads_back(
            v.nodes,
            edited_id(c)->0,
            v.library.material(edited_id(c)->0).builtin->0,
            w.library.materials[material_at(v.library.materials, edited_id(c)->0)].builtin->0,
        ) ==> scenes_alike(v.nodes, x.nodes),
{
    reveal(work_step);
    let id = edited_id(c)->0;
    let i = material_at(v.library.materials, id);
    let inv = choose|inv: Option<LibraryCommand>| #[trigger]
        library_step(v.library, c, v.includes, v.inputs, w.library, Ok(inv)) && row == library_row(
            inv,
        );
    let back = inv->0;
    let rr = choose|rr: Seq<EditorCommand>| #[trigger] work_step(eval, a, row[0], x, Ok(rr));
    let again = choose|again: Option<LibraryCommand>| #[trigger]
        library_step(a.library, back, a.includes, a.inputs, x.library, Ok(again)) && rr
            == library_row(again);
    let m = v.library.materials[i];
    let m2 = w.library.materials[i];
    let m3 = x.library.materials[i];
    lemma_first(v.library.materials, is_material(id));
    assert(m.id == id);
    assert(m2.id == id);
    assert forall|j: int| 0 <= j < i implies !is_material(id)(#[trigger] w.library.materials[j]) by {
        assert(w.library.materials[j] == v.library.materials[j]);
        assert(!is_material(id)(v.library.materials[j]));
    }
    lemma_first_is(w.library.materials, is_material(id), i);
    assert(edited_id(back) == Some(id));
    law_material_edit_is_undone(m, c, v.includes, v.inputs, m2, m3);
    if redefines(c) {
        let before = m.builtin->0;
        let after = m2.builtin->0;
        if scene_leads_back(v.nodes, id, before, after) {
            law_scene_leads_back(v.nodes, id, before, after, w.nodes, x.nodes);
        }
    }
}

/// What freeing a mesh from its rig hands back gives the node its rig again. The mesh
/// asset that was made for it stays behind.
pub proof fn law_freed_mesh_is_taken_back<
    F: Fn(&ModifierStack, &VertexOverrides, &Table<MeshData>) -> MeshData,
>(
    eval: F,
    v: WorkView,
    node: NodeId,
    bind_pose: Option<MeshData>,
    w: WorkView,
    row: Seq<EditorCommand>,
    a: WorkView,
    x: WorkView,
)
    requires
        work_step(eval, v, EditorCommand::DropSkinning { node, bind_pose }, w, Ok(row)),
        row.len() > 0,
        same_project(a, w, false),
        leads(eval, a, row[0], x),
    ensures
        row.len() == 1,
        same_project(
            x,
            WorkView { store: StoreView { assets: x.store.assets, ..v.store }, ..v },
            false,
        ),
        x.store.assets.remove(node.0) == v.store.assets.remove(node.0),
{
    reveal(work_step);
    let rr = choose|rr: Seq<EditorCommand>| #[trigger] work_step(eval, a, row[0], x, Ok(rr));
    let t = find(v.nodes, node)->0;
    lemma_find(v.nodes, node);
    if let NodeKind::SkinnedMesh { skin, palette, shadow, lod } = t.data.kind {
        let mesh = AssetId(node.0);
        let d2 = crate::tree::NodeData {
            kind: NodeKind::Mesh { mesh, palette, shadow, lod },
            ..t.data
        };
        assert(w.nodes == put(v.nodes, node, d2));
        law_put_changes_one_node(v.nodes, node, d2, node);
        crate::tree_laws::law_put_is_undone(v.nodes, node, d2);
        assert(crate::tree::NodeData { kind: t.data.kind, ..d2 } == t.data);
    }
    assert(x.store.assets.remove(node.0) =~= v.store.assets.remove(node.0));
}

} // verus!
