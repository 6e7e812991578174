//! What holds of what the editor tells of the project and of itself: each line tells of
//! its own subject, and no subject is passed over.
use crate::activity::{hidden, is_entry, shown};
use crate::activity_feed::{
    after_telling, described, node_edit_phrase, vert_text, FeedView, FocusTarget,
};
use crate::assets::{AssetEntry, AssetSource};
use crate::clips::{TrackTarget, TransformProp};
use crate::command::EditorCommand;
use crate::compiling::{compiled, tells_syntax, SyntaxError};
use crate::custom_material::{material_at, CompileError, CustomMaterial};
use crate::find::lemma_first;
use crate::ids::{hyphenated, AssetId, NodeId};
use crate::list::List;
use crate::motion_laws::given_or;
use crate::node::{NodeKind, SkinJoint};
use crate::node_edit::NodeEdit;
use crate::scene_query::{
    asked_nodes, details_of, group_key, grouped, has_group_key, joint_line, options_of,
    outlines, poses_of, tells_material, weights_of, MaterialOrigin, NodeMaterial, NodeOutline,
    SkinGroupView,
};
use crate::session::{view_after, SessionView, ViewCommand, ViewPatch};
use crate::skin::{entry_at, vertex_within, SkinView};
use crate::snapshot::{
    target_words, tells_animation, tells_library_material, tells_slot, tells_state,
    AnimationSnapshot, EditorSnapshot, EnvSlotKind, EnvSlotSnapshot, MaterialSnapshot,
};
use crate::text::decimal;
use crate::timeline::TimelineView;
use crate::tree::{find, ids, Tree};
use crate::workspace::WorkView;
use crate::world::EnvSlot;
use vstd::prelude::*;

verus! {

/// A view edit sets the part of the session that it names, and nothing else.
#[verifier::rlimit(60)]
pub proof fn law_view_edit_sets_one_part(s: SessionView, cmd: ViewCommand)
    ensures
        ({
            let r = view_after(s, cmd);
            let a = s.settings;
            let b = r.settings;
            let p = match cmd {
                ViewCommand::SetViewOptions(p) => p,
                _ => ViewPatch {
                    grid: None,
                    gizmos: None,
                    light_gizmos: None,
                    skeleton_viz: None,
                    follow_agent: None,
                    activity_overlay: None,
                    mcp_notifications: None,
                    msaa: None,
                    smaa: None,
                },
            };
            &&& match cmd {
                ViewCommand::SwitchMode(mode) => r.mode == mode,
                _ => r.mode == s.mode,
            }
            &&& match cmd {
                ViewCommand::SetSelection(ids) => r.selected == ids@,
                _ => r.selected == s.selected,
            }
            &&& match cmd {
                ViewCommand::SetVertexSelection { node, indices } => if indices@.len() == 0 {
                    r.vertex_selection is None
                } else {
                    r.vertex_selection == Some((node, indices))
                },
                _ => r.vertex_selection == s.vertex_selection,
            }
            &&& match cmd {
                ViewCommand::SetAssetSelection(id) => r.asset_selection == id,
                _ => r.asset_selection == s.asset_selection,
            }
            &&& r.follow_agent == given_or(p.follow_agent, s.follow_agent)
            &&& r.activity_overlay == given_or(p.activity_overlay, s.activity_overlay)
            &&& r.mcp_notifications == given_or(p.mcp_notifications, s.mcp_notifications)
            &&& b.grid == given_or(p.grid, a.grid)
            &&& b.gizmo == given_or(p.gizmos, a.gizmo)
            &&& b.light_gizmos == given_or(p.light_gizmos, a.light_gizmos)
            &&& b.skeleton_viz == given_or(p.skeleton_viz, a.skeleton_viz)
            &&& b.msaa == given_or(p.msaa, a.msaa)
            &&& b.smaa == given_or(p.smaa, a.smaa)
            &&& b.auto_key == a.auto_key
            &&& b.heatmap == a.heatmap
            &&& b.shadow_denoise == a.shadow_denoise
            &&& b.snap == a.snap
            &&& b.units == a.units
            &&& match cmd {
                ViewCommand::SetCameraProjection { perspective } => b.editor_ortho != perspective,
                _ => b.editor_ortho == a.editor_ortho,
            }
            &&& match cmd {
                ViewCommand::SetCameraClip { manual, near, far } => {
                    &&& b.cam_clip_manual == given_or(manual, a.cam_clip_manual)
                    &&& b.cam_clip_near == given_or(near, a.cam_clip_near)
                    &&& b.cam_clip_far == given_or(far, a.cam_clip_far)
                },
                _ => b.cam_clip_manual == a.cam_clip_manual && b.cam_clip_near == a.cam_clip_near
                    && b.cam_clip_far == a.cam_clip_far,
            }
        }),
{
}

/// The view options that are told are those that were set.
#[verifier::rlimit(60)]
pub proof fn law_view_options_are_told_as_set(s: SessionView, p: ViewPatch)
    ensures
        ({
            let r = options_of(view_after(s, ViewCommand::SetViewOptions(p)));
            let a = options_of(s);
            &&& r.grid == given_or(p.grid, a.grid)
            &&& r.gizmos == given_or(p.gizmos, a.gizmos)
            &&& r.light_gizmos == given_or(p.light_gizmos, a.light_gizmos)
            &&& r.skeleton_viz == given_or(p.skeleton_viz, a.skeleton_viz)
            &&& r.follow_agent == given_or(p.follow_agent, a.follow_agent)
            &&& r.activity_overlay == given_or(p.activity_overlay, a.activity_overlay)
            &&& r.mcp_notifications == given_or(p.mcp_notifications, a.mcp_notifications)
            &&& r.msaa == given_or(p.msaa, a.msaa)
            &&& r.smaa == given_or(p.smaa, a.smaa)
        }),
{
    law_view_edit_sets_one_part(s, ViewCommand::SetViewOptions(p));
    law_view_options_are_those_of_the_session(s);
    law_view_options_are_those_of_the_session(
        view_after(s, ViewCommand::SetViewOptions(p)),
    );
}

/// The view options that are told are those of the session.
pub proof fn law_view_options_are_those_of_the_session(s: SessionView)
    ensures
        options_of(s).grid == s.settings.grid,
        options_of(s).gizmos == s.settings.gizmo,
        options_of(s).light_gizmos == s.settings.light_gizmos,
        options_of(s).skeleton_viz == s.settings.skeleton_viz,
        options_of(s).msaa == s.settings.msaa,
        options_of(s).smaa == s.settings.smaa,
        options_of(s).follow_agent == s.follow_agent,
        options_of(s).activity_overlay == s.activity_overlay,
        options_of(s).mcp_notifications == s.mcp_notifications,
{
}

/// The material that is told of a node is the one that it renders with, with its color
/// and where it comes from.
pub proof fn law_material_is_told_of_its_node(
    k: NodeKind,
    ms: Seq<CustomMaterial>,
    r: NodeMaterial,
)
    requires
        tells_material(k, ms, r),
    ensures
        (r is Assigned) == k.assigned(),
        r matches NodeMaterial::Assigned { asset, base_color, origin } ==> {
            let i = material_at(ms, asset);
            &&& asset == k.current().asset
            &&& base_color == k.current().inline.base_color
            &&& (origin is Unknown) == !(exists|j: int|
                0 <= j < ms.len() && (#[trigger] ms[j]).id == asset)
            &&& origin matches MaterialOrigin::Builtin { name, shading } ==> ms[i].id == asset
                && ms[i].builtin is Some && name == ms[i].name && shading == (
            ms[i].builtin->0).shading
            &&& origin matches MaterialOrigin::Custom { name } ==> ms[i].id == asset
                && ms[i].builtin is None && name == ms[i].name
        },
{
    if let NodeMaterial::Assigned { asset, .. } = r {
        let p = crate::custom_material::is_material(asset);
        lemma_first(ms, p);
        let i = material_at(ms, asset);
        if 0 <= i < ms.len() {
            assert(p(ms[i]));
        } else {
            assert forall|j: int| 0 <= j < ms.len() implies (#[trigger] ms[j]).id != asset by {
                assert(!p(ms[j]));
            }
        }
    }
}

/// An outline of the scene has the id and the name of each node, and what is below it in
/// order.
pub proof fn law_outline_is_that_of_the_tree(t: Tree, o: NodeOutline, i: int)
    requires
        outlines(t, o),
    ensures
        o.brief.id == t.id,
        o.brief.name == t.data.name,
        o.brief.kind@ == t.data.kind.label_text(),
        o.children@.len() == t.children.len(),
        0 <= i < t.children.len() ==> outlines(t.children[i], o.children@[i])
            && o.children@[i].brief.id == t.children[i].id,
{
    reveal_with_fuel(outlines, 2);
}

/// The nodes that are asked for are those that are named, or all of the scene.
pub proof fn law_no_name_asks_for_all(f: Seq<Tree>, requested: Seq<NodeId>)
    ensures
        requested.len() > 0 ==> asked_nodes(f, requested) == requested,
        requested.len() == 0 ==> asked_nodes(f, requested) == ids(f),
{
}

/// The poses and the kinds that are told are those of the nodes of the row that the scene
/// has, each with its own.
pub proof fn law_poses_and_kinds_are_those_of_their_nodes(f: Seq<Tree>, row: Seq<NodeId>)
    requires
        forall|i: int| 0 <= i < row.len() ==> find(f, #[trigger] row[i]) is Some,
    ensures
        poses_of(f, row).len() == row.len(),
        details_of(f, row).len() == row.len(),
        forall|i: int|
            0 <= i < row.len() ==> (#[trigger] poses_of(f, row)[i]).node == row[i] && poses_of(
                f,
                row,
            )[i].transform == find(f, row[i])->0.data.transform,
        forall|i: int|
            0 <= i < row.len() ==> (#[trigger] details_of(f, row)[i]).node == row[i] && details_of(
                f,
                row,
            )[i].kind == find(f, row[i])->0.data.kind,
    decreases row.len(),
{
    if row.len() > 0 {
        let less = row.drop_last();
        assert forall|i: int| 0 <= i < less.len() implies find(f, #[trigger] less[i]) is Some by {
            assert(find(f, row[i]) is Some);
        }
        law_poses_and_kinds_are_those_of_their_nodes(f, less);
        assert(find(f, row[row.len() - 1]) is Some);
        let a = poses_of(f, less);
        let b = details_of(f, less);
        let p = poses_of(f, row);
        let d = details_of(f, row);
        assert forall|i: int| 0 <= i < row.len() implies (#[trigger] p[i]).node == row[i]
            && p[i].transform == find(f, row[i])->0.data.transform by {
            if i < less.len() {
                assert(p[i] == a[i]);
                assert(less[i] == row[i]);
            }
        }
        assert forall|i: int| 0 <= i < row.len() implies (#[trigger] d[i]).node == row[i]
            && d[i].kind == find(f, row[i])->0.data.kind by {
            if i < less.len() {
                assert(d[i] == b[i]);
                assert(less[i] == row[i]);
            }
        }
    }
}

/// A bone is told with its index in the rig, its name and where it stands, and whether
/// it moves the skin.
pub proof fn law_bone_is_told_as_it_stands(f: Seq<Tree>, live: Set<u128>, j: SkinJoint)
    ensures
        ({
            let r = joint_line(f, live, j);
            &&& r.node == j.node
            &&& r.index == j.index
            &&& r.live == live.contains(j.node.0)
            &&& find(f, j.node) matches Some(t) ==> r.name == t.data.name@ && r.transform
                == t.data.transform
            &&& find(f, j.node) is None ==> r.name == "<missing>"@
        }),
{
}

/// A skinned mesh is told in the group of its rig: beside the meshes that share its
/// first bone, or in a group of its own with all its bones.
pub proof fn law_skinned_mesh_joins_its_rig(
    groups: Seq<SkinGroupView>,
    f: Seq<Tree>,
    live: Set<u128>,
    id: NodeId,
)
    requires
        find(f, id) is Some,
        find(f, id)->0.data.kind is SkinnedMesh,
    ensures
        ({
            let t = find(f, id)->0;
            let skin = t.data.kind->SkinnedMesh_skin;
            let r = grouped(groups, f, live, id);
            let mesh = (id, t.data.name@, skin.primitive_index);
            exists|i: int|
                0 <= i < r.len() && (#[trigger] r[i]).key == group_key(skin.joints@, skin.source)
                    && r[i].meshes.last() == mesh && r[i].meshes.len() > 0 && if i < groups.len() {
                    &&& r.len() == groups.len()
                    &&& r[i].meshes.drop_last() == groups[i].meshes
                    &&& r[i].joints == groups[i].joints
                    &&& r[i].source == groups[i].source
                } else {
                    &&& r.len() == groups.len() + 1
                    &&& r[i].meshes.len() == 1
                    &&& r[i].source == skin.source
                    &&& r[i].joints.len() == skin.joints@.len()
                    &&& forall|k: int|
                        0 <= k < skin.joints@.len() ==> (#[trigger] r[i].joints[k]).node
                            == skin.joints@[k].node && r[i].joints[k].index == skin.joints@[k].index
                }
        }),
{
    let t = find(f, id)->0;
    let skin = t.data.kind->SkinnedMesh_skin;
    let key = group_key(skin.joints@, skin.source);
    let p = has_group_key(key);
    lemma_first(groups, p);
    let i = crate::find::first(groups, p);
    let r = grouped(groups, f, live, id);
    if i < groups.len() {
        assert(p(groups[i]));
        assert(r[i].meshes.drop_last() =~= groups[i].meshes);
        assert(r[i].key == key);
    } else {
        let n = groups.len() as int;
        assert(r[n].key == key);
    }
}

/// The weights that are told are those of the vertices that are asked for, in order.
pub proof fn law_weights_are_told_of_their_vertices(s: SkinView, row: Seq<u32>)
    requires
        forall|i: int| 0 <= i < row.len() ==> vertex_within(s, #[trigger] row[i]),
    ensures
        weights_of(s, row).len() == row.len(),
        forall|i: int|
            0 <= i < row.len() ==> #[trigger] weights_of(s, row)[i] == entry_at(s, row[i]),
    decreases row.len(),
{
    if row.len() > 0 {
        let less = row.drop_last();
        assert forall|i: int| 0 <= i < less.len() implies vertex_within(s, #[trigger] less[i]) by {
            assert(vertex_within(s, row[i]));
        }
        law_weights_are_told_of_their_vertices(s, less);
        assert(vertex_within(s, row[row.len() - 1]));
        let a = weights_of(s, less);
        let r = weights_of(s, row);
        assert forall|i: int| 0 <= i < row.len() implies #[trigger] r[i] == entry_at(s, row[i]) by {
            if i < less.len() {
                assert(r[i] == a[i]);
                assert(less[i] == row[i]);
            }
        }
    }
}

/// A slot of the environment is told as what fills it: the file by its name, or the two
/// colors of the sky.
pub proof fn law_environment_slot_is_told(
    s: EnvSlot,
    assets: Map<u128, AssetEntry>,
    r: EnvSlotSnapshot,
)
    requires
        tells_slot(s, assets, r),
    ensures
        match s {
            EnvSlot::BuiltInDefault => r.kind == EnvSlotKind::BuiltIn && r.gradient is None
                && r.asset_id is None,
            EnvSlot::SkyGradient { zenith, nadir } => r.kind == EnvSlotKind::SkyGradient
                && r.gradient == Some((zenith, nadir)),
            EnvSlot::Ktx { asset_id } => {
                &&& r.kind == EnvSlotKind::Ktx
                &&& r.asset_id is Some && (r.asset_id->0)@ == hyphenated(asset_id.0)
                &&& assets.contains_key(asset_id.0) ==> (assets[asset_id.0].source matches
                    AssetSource::Filename(name) ==> r.label is Some && (r.label->0)@ == name@)
                &&& !assets.contains_key(asset_id.0) ==> r.label is None
            },
        },
{
}

/// What is told of the animation is the timeline: its clips in order, the current one,
/// the playhead, and how it plays.
pub proof fn law_animation_is_told_as_it_is(v: TimelineView, r: AnimationSnapshot, i: int)
    requires
        tells_animation(v, r),
    ensures
        r.clips@.len() == v.clips.len(),
        r.playhead == v.playhead,
        r.playing == v.playing,
        r.fps == v.fps,
        r.mixer_layers == v.layers.len(),
        v.current_clip matches Some(id) ==> r.current_clip is Some && (r.current_clip->0)@
            == hyphenated(id.0),
        v.current_clip is None ==> r.current_clip is None,
        v.solo_root matches Some(id) ==> r.solo_root is Some && (r.solo_root->0)@ == hyphenated(
            id.0,
        ),
        v.solo_root is None ==> r.solo_root is None,
        0 <= i < v.clips.len() ==> {
            &&& r.clips@[i].id@ == hyphenated(v.clips[i].id.0)
            &&& r.clips@[i].name@ == v.clips[i].name
            &&& r.clips@[i].duration == v.clips[i].duration
            &&& r.clips@[i].tracks@.len() == v.clips[i].tracks.len()
            &&& forall|k: int|
                0 <= k < v.clips[i].tracks.len() ==> (#[trigger] r.clips@[i].tracks@[k]).keys
                    == v.clips[i].tracks[k].keys.len()
        },
{
}

/// The part of a placement that a track moves is named.
pub proof fn law_moved_parts_are_named(
    node: NodeId,
    index: usize,
    material: AssetId,
    name: String,
)
    ensures
        target_words(TrackTarget::Transform { node, prop: TransformProp::Translation })
            == "transform:"@ + "Translation"@,
        target_words(TrackTarget::Transform { node, prop: TransformProp::Rotation })
            == "transform:"@ + "Rotation"@,
        target_words(TrackTarget::Transform { node, prop: TransformProp::Scale }) == "transform:"@
            + "Scale"@,
        target_words(TrackTarget::Morph { node, index }) == "morph:"@ + decimal(index as nat),
        target_words(TrackTarget::Uniform { material, name }) == "uniform:"@ + name@,
{
}

/// What is told of a material of the library is its own.
pub proof fn law_library_material_is_told(m: CustomMaterial, r: MaterialSnapshot, i: int)
    requires
        tells_library_material(m, r),
    ensures
        r.id@ == hyphenated(m.id.0),
        r.name == m.name,
        r.registered == m.registered,
        r.builtin == (m.builtin is Some),
        r.builtin_def == m.builtin,
        r.compile_ok == (r.errors@.len() == 0),
        r.errors == m.last_diagnostics,
        r.uniforms@.len() == m.uniforms@.len(),
        0 <= i < m.uniforms@.len() ==> r.uniforms@[i] == m.uniforms@[i].name,
{
}

/// The state that is told is that of the project: what is selected, how many steps can
/// be taken back and forth, and whether it is saved.
pub proof fn law_state_is_told_as_it_is(
    v: WorkView,
    undo: nat,
    redo: nat,
    r: EditorSnapshot,
    i: int,
)
    requires
        tells_state(v, undo, redo, r),
    ensures
        r.mode == v.session.mode,
        r.undo_depth == undo,
        r.redo_depth == redo,
        r.project.name@ == v.project_name,
        r.project.dirty == v.dirty,
        r.project.env_unsaved == (v.world.environment != v.baseline),
        r.project.units@ == v.session.settings.units@,
        r.scene_tree@.len() == v.nodes.len(),
        r.materials@.len() == v.library.materials.len(),
        r.selection@.len() == v.session.selected.len(),
        r.project.missing_assets@.len() == v.missing_assets.len(),
        0 <= i < v.nodes.len() ==> r.scene_tree@[i].brief.id == v.nodes[i].id,
        0 <= i < v.library.materials.len() ==> r.materials@[i].id@ == hyphenated(
            v.library.materials[i].id.0,
        ),
        0 <= i < v.session.selected.len() ==> r.selection@[i]@ == hyphenated(
            v.session.selected[i].0,
        ),
        0 <= i < v.missing_assets.len() ==> r.project.missing_assets@[i]@ == hyphenated(
            v.missing_assets[i].0,
        ),
        r.project.environment.probe == v.world.environment.probe,
        tells_slot(v.world.environment.skybox, v.store.assets, r.project.environment.skybox),
        tells_slot(v.world.environment.specular, v.store.assets, r.project.environment.specular),
        tells_slot(
            v.world.environment.irradiance,
            v.store.assets,
            r.project.environment.irradiance,
        ),
{
    if 0 <= i < v.nodes.len() {
        assert(outlines(v.nodes[i], r.scene_tree@[i]));
    }
    if 0 <= i < v.library.materials.len() {
        assert(tells_library_material(v.library.materials[i], r.materials@[i]));
    }
    if 0 <= i < v.session.selected.len() {
        assert(crate::snapshot::node_numbers(v.session.selected)[i] == v.session.selected[i].0);
    }
    if 0 <= i < v.missing_assets.len() {
        assert(crate::snapshot::asset_numbers(v.missing_assets)[i] == v.missing_assets[i].0);
    }
}

/// An edit is told with the word that is true of it: shown or hidden, locked or
/// unlocked, and by the name that is given.
pub proof fn law_node_edit_is_told_as_done(name: String, node: NodeId)
    ensures
        node_edit_phrase(NodeEdit::SetVisible(true)) == Some(
            (FocusTarget::Outliner, "showed a node"@),
        ),
        node_edit_phrase(NodeEdit::SetVisible(false)) == Some(
            (FocusTarget::Outliner, "hid a node"@),
        ),
        node_edit_phrase(NodeEdit::SetLocked(true)) == Some(
            (FocusTarget::Outliner, "locked a node"@),
        ),
        node_edit_phrase(NodeEdit::SetLocked(false)) == Some(
            (FocusTarget::Outliner, "unlocked a node"@),
        ),
        node_edit_phrase(NodeEdit::Rename(name)) matches Some((_, s)) ==> crate::text::holds(
            s,
            name@,
        ),
        vert_text(1) == "1 vert"@,
        forall|n: nat| n != 1 ==> #[trigger] vert_text(n) == decimal(n) + " verts"@,
{
    let s = (node_edit_phrase(NodeEdit::Rename(name))->0).1;
    let a = "renamed a node to "@;
    let b = "\u{201c}"@;
    let i = (a.len() + b.len()) as int;
    assert(s.subrange(i, i + name@.len()) =~= name@);
}

/// What is told goes to the end of the feed, which drops its oldest line when it is
/// full; the panel where it shows lights up, where there is one. A feed that is off
/// tells nothing.
pub proof fn law_feed_tells_what_is_done(v: FeedView, c: EditorCommand)
    ensures
        ({
            let w = after_telling(v, c);
            &&& w.enabled == v.enabled
            &&& !v.enabled ==> w == v
            &&& described(c) is None ==> w == v
            &&& v.enabled && described(c) is Some ==> {
                let (panel, words) = described(c)->0;
                &&& w.entries.len() > 0
                &&& w.entries.last() == words
                &&& v.entries.len() < 50 ==> w.entries.drop_last() == v.entries
                &&& v.entries.len() == 50 ==> w.entries.len() == 50 && w.entries.drop_last()
                    == v.entries.drop_first()
                &&& panel != FocusTarget::Nowhere ==> w.focus == Some(panel) && w.generation
                    != v.generation
                &&& panel == FocusTarget::Nowhere ==> w.focus == v.focus && w.generation
                    == v.generation
            }
        }),
{
    let w = after_telling(v, c);
    if v.enabled && described(c) is Some {
        if v.entries.len() < 50 {
            assert(w.entries.drop_last() =~= v.entries);
        } else if v.entries.len() == 50 {
            assert(w.entries.drop_last() =~= v.entries.drop_first());
        }
    }
}

/// An activity is shown under its own id with its label, once; it is hidden alone.
pub proof fn law_activity_is_shown_once(list: Seq<(u64, Seq<char>)>, id: u64, label: Seq<char>)
    requires
        forall|i: int, j: int|
            0 <= i < j < list.len() ==> (#[trigger] list[i]).0 != (#[trigger] list[j]).0,
    ensures
        exists|i: int| 0 <= i < shown(list, id, label).len() && #[trigger] shown(list, id, label)[i]
            == (id, label),
        forall|k: int|
            0 <= k < list.len() && (#[trigger] list[k]).0 != id ==> shown(list, id, label).contains(
                list[k],
            ),
        forall|k: int|
            0 <= k < shown(list, id, label).len() ==> (#[trigger] shown(list, id, label)[k]) == (
                id,
                label,
            ) || list.contains(shown(list, id, label)[k]),
        forall|k: int|
            0 <= k < hidden(list, id).len() ==> (#[trigger] hidden(list, id)[k]).0 != id
                && list.contains(hidden(list, id)[k]),
        forall|k: int|
            0 <= k < list.len() && (#[trigger] list[k]).0 != id ==> hidden(list, id).contains(
                list[k],
            ),
{
    let p = is_entry(id);
    lemma_first(list, p);
    let i = crate::find::first(list, p);
    let s = shown(list, id, label);
    let h = hidden(list, id);
    if i < list.len() {
        assert(p(list[i]));
        assert(s[i] == (id, label));
    } else {
        assert(s[0] == (id, label));
    }
    assert forall|k: int| 0 <= k < list.len() && (#[trigger] list[k]).0 != id implies s.contains(
        list[k],
    ) by {
        if i < list.len() {
            assert(s[k] == list[k]);
        } else {
            assert(s[k + 1] == list[k]);
        }
    }
    assert forall|k: int| 0 <= k < s.len() implies (#[trigger] s[k]) == (id, label)
        || list.contains(s[k]) by {
        if i < list.len() {
            if k != i {
                assert(list[k] == s[k]);
            }
        } else if k > 0 {
            assert(list[k - 1] == s[k]);
        }
    }
    assert forall|k: int| 0 <= k < h.len() implies (#[trigger] h[k]).0 != id && list.contains(
        h[k],
    ) by {
        if i < list.len() {
            let m = if k < i {
                k
            } else {
                k + 1
            };
            assert(list[m] == h[k]);
            assert(list[m].0 != list[i].0);
        } else {
            assert(list[k] == h[k]);
            assert(!p(list[k]));
        }
    }
    assert forall|k: int| 0 <= k < list.len() && (#[trigger] list[k]).0 != id implies h.contains(
        list[k],
    ) by {
        if i < list.len() {
            let m = if k < i {
                k
            } else {
                k - 1
            };
            assert(h[m] == list[k]);
        }
    }
}

/// Problems that were found are kept with a material, each with its line and its words;
/// whether it is registered is kept beside them, and the rest of it stays.
pub proof fn law_problems_are_kept_with_the_material(
    m: CustomMaterial,
    ok: bool,
    problems: List<CompileError>,
    found: Seq<SyntaxError>,
    i: int,
)
    requires
        tells_syntax(problems@, found),
        0 <= i < found.len(),
    ensures
        ({
            let r = compiled(m, ok, problems);
            &&& r.registered == ok
            &&& r.last_diagnostics == problems
            &&& r.last_diagnostics@.len() == found.len()
            &&& r.last_diagnostics@[i].line == Some(found[i].line)
            &&& r.last_diagnostics@[i].message@ == found[i].message@
            &&& r.id == m.id && r.name == m.name && r.wgsl == m.wgsl && r.uniforms == m.uniforms
            &&& r.builtin == m.builtin && r.recompile_rev == m.recompile_rev
        }),
{
}

} // verus!
