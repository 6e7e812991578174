//! What holds of answers and of refusals: an answer is about what was asked for, and a
//! refusal comes where there is nothing to answer or to edit, and for that reason.
use crate::animation_sync::RenderNode;
use crate::asset_template::{found, lacks_material, mesh_keys, AssetTemplate, AssetTemplateNode};
use crate::assets::{MeshData, ModifierStack, VertexOverrides};
use crate::bundle::{template_leftovers, Leftover};
use crate::command::EditorCommand;
use crate::custom_material::{is_material, CustomMaterial};
use crate::dynamic::{is_fresh, DynamicMaterial, MaterialRegistration, MaterialShaderId};
use crate::errors::EditorError;
use crate::ids::{AssetId, NodeId};
use crate::import_library::material_id;
use crate::import_scene::ImportContext;
use crate::library_edit::{library_step, LibraryCommand, LibraryView};
use crate::mesh_edit::{data_refusal, StoreView};
use crate::mesh_query::{band_refusal, geometry_of, mesh_of, mesh_refusal, vertex_refusal};
use crate::model_import::{file_id, import_step, needs_default, reports, Imported, ModelImport};
use crate::node::NodeKind;
use crate::query::{answers, resumed, sampling, Answer, EditorQuery, Transport};
use crate::query_errors::QueryError;
use crate::reachable::{any_mentions, closed_under, in_use, mentions, Json};
use crate::rig::chain_of;
use crate::scene_edit::editable_mesh;
use crate::selections::SelectionsView;
use crate::session::{fresh_session, EditorMode, SessionView};
use crate::table::Table;
use crate::timeline::{track_refusal, TimelineView, TrackCommand};
use crate::tree::{find, ids, Tree};
use crate::workspace::{work_step, WorkView};
use vstd::prelude::*;

verus! {

/// An answer on a material is about the material that was asked for: its source, or what
/// was found wrong with it.
pub proof fn law_answer_is_about_the_material(
    v: WorkView,
    undo: nat,
    redo: nat,
    material: AssetId,
    w: WorkView,
    a: Answer,
    b: Answer,
    i: int,
)
    requires
        answers(v, undo, redo, EditorQuery::CustomMaterialWgsl { material }, w, a),
        answers(v, undo, redo, EditorQuery::MaterialDiagnostics { material }, w, b),
        0 <= i < v.library.materials.len(),
        v.library.materials[i].id == material,
        forall|j: int| 0 <= j < i ==> (#[trigger] v.library.materials[j]).id != material,
    ensures
        a == Answer::Text(v.library.materials[i].wgsl),
        b matches Answer::Diagnostics(d) && d.registered == v.library.materials[i].registered
            && d.errors == v.library.materials[i].last_diagnostics && d.ok == (d.errors@.len()
            == 0),
        w == v,
{
    let ms = v.library.materials;
    let p = is_material(material);
    assert(p(ms[i]));
    assert forall|j: int| 0 <= j < i implies !p(#[trigger] ms[j]) by {}
    crate::find::lemma_first_is(ms, p, i);
}

/// The children that are told are those of the node, in order, each with its own id,
/// name and kind.
pub proof fn law_children_are_told_in_order(
    v: WorkView,
    undo: nat,
    redo: nat,
    node: NodeId,
    w: WorkView,
    a: Answer,
    i: int,
)
    requires
        answers(v, undo, redo, EditorQuery::GetChildren { node }, w, a),
    ensures
        find(v.nodes, node) is None ==> a == Answer::Error(QueryError::NoNode(node)),
        find(v.nodes, node) matches Some(t) ==> (a matches Answer::Children(row) && row@.len()
            == t.children.len() && (0 <= i < t.children.len() ==> row@[i].id == t.children[i].id
            && row@[i].name == t.children[i].data.name && row@[i].kind@
            == t.children[i].data.kind.label_text())),
{
}

/// The track that is told is the one that was asked for, whole.
pub proof fn law_track_is_told_whole(
    v: WorkView,
    undo: nat,
    redo: nat,
    clip: AssetId,
    track: usize,
    w: WorkView,
    a: Answer,
)
    requires
        answers(v, undo, redo, EditorQuery::GetTrackData { clip, track }, w, a),
    ensures
        v.timeline.has_track(clip, track) ==> (a matches Answer::Track(t) && {
            let s = v.timeline.clip(clip).tracks[track as int];
            &&& t.target == s.target
            &&& t.sampler == s.sampler
            &&& t.mute == s.mute
            &&& t.solo == s.solo
            &&& t.times@ == s.times
            &&& t.keys@ == s.keys
        }),
        !v.timeline.has_track(clip, track) ==> a == Answer::Error(
            QueryError::NoTrack { clip, track },
        ),
{
}

/// The settings that are told are those of the world and of the session.
pub proof fn law_settings_are_told_as_they_are(
    v: WorkView,
    undo: nat,
    redo: nat,
    w: WorkView,
    a: Answer,
    b: Answer,
    mesh: AssetId,
    c: Answer,
)
    requires
        answers(v, undo, redo, EditorQuery::PostProcess, w, a),
        answers(v, undo, redo, EditorQuery::Shadows, w, b),
        answers(v, undo, redo, EditorQuery::MeshModifiers { mesh }, w, c),
    ensures
        a == Answer::PostProcess(v.world.post_process),
        b == Answer::Shadows(v.world.shadows),
        crate::mesh_edit::mesh_def(v.store, mesh) matches Some(d) ==> c == Answer::Modifiers(
            d.stack,
        ),
        !v.store.assets.contains_key(mesh.0) ==> c == Answer::Error(QueryError::NoAsset(mesh)),
{
}

/// A question on the mesh of a node is refused where the node is skinned or has no
/// geometry, and for that reason; one with a handle, where nothing is kept under it.
pub proof fn law_mesh_question_is_refused_for_its_reason(
    f: Seq<Tree>,
    v: StoreView,
    s: SelectionsView,
    node: NodeId,
    selection: Option<u32>,
)
    ensures
        ({
            let skinned = find(f, node) matches Some(t) && t.data.kind is SkinnedMesh;
            let meshy = find(f, node) matches Some(t) && (t.data.kind matches NodeKind::Mesh {
                mesh,
                ..
            } && v.geometry.contains_key(mesh.0));
            let lost = selection matches Some(id) && !s.rows.contains_key(id as u128);
            &&& skinned ==> mesh_refusal(f, v, node) == Some(QueryError::SkinnedNode(node))
                && vertex_refusal(f, v, s, node, selection) == Some(QueryError::SkinnedNode(node))
                && band_refusal(f, v, s, node, selection) == Some(QueryError::SkinnedNode(node))
            &&& !skinned && !meshy ==> mesh_refusal(f, v, node) == Some(QueryError::NoMesh(node))
                && band_refusal(f, v, s, node, selection) == Some(QueryError::NoMesh(node))
            &&& !skinned && lost ==> vertex_refusal(f, v, s, node, selection) == Some(
                QueryError::NoSelectionHandle(selection->0),
            )
            &&& meshy && lost ==> band_refusal(f, v, s, node, selection) == Some(
                QueryError::NoSelectionHandle(selection->0),
            )
            &&& meshy ==> mesh_refusal(f, v, node) is None
            &&& meshy && !lost ==> vertex_refusal(f, v, s, node, selection) is None
                && band_refusal(f, v, s, node, selection) is None
            &&& meshy ==> (find(f, node)->0.data.kind matches NodeKind::Mesh { mesh, .. }
                ==> geometry_of(f, v, node) == Some(v.geometry[mesh.0]) && mesh_of(f, node) == Some(
                mesh,
            ))
        }),
{
}

/// The mesh of a node can be edited where it is a mesh with geometry; else the reason is
/// told.
pub proof fn law_mesh_can_be_edited_or_the_reason_is_told(
    f: Seq<Tree>,
    geometry: Map<u128, MeshData>,
    node: NodeId,
)
    ensures
        match find(f, node) {
            None => editable_mesh(f, geometry, node) == Err::<AssetId, EditorError>(
                EditorError::NodeNotFound(node),
            ),
            Some(t) => match t.data.kind {
                NodeKind::SkinnedMesh { .. } => editable_mesh(f, geometry, node) == Err::<
                    AssetId,
                    EditorError,
                >(EditorError::SkinnedNode(node)),
                NodeKind::Mesh { mesh, .. } => {
                    &&& geometry.contains_key(mesh.0) ==> editable_mesh(f, geometry, node) == Ok::<
                        AssetId,
                        EditorError,
                    >(mesh)
                    &&& !geometry.contains_key(mesh.0) ==> editable_mesh(f, geometry, node)
                        == Err::<AssetId, EditorError>(EditorError::NoGeometry(node))
                },
                _ => editable_mesh(f, geometry, node) == Err::<AssetId, EditorError>(
                    EditorError::NotAMeshNode(node),
                ),
            },
        },
{
}

/// Geometry is refused for being empty, or for triangles that are none of its vertices.
pub proof fn law_geometry_is_refused_for_its_reason(data: MeshData, allow_empty: bool)
    ensures
        data.positions@.len() == 0 && !allow_empty ==> data_refusal(data, allow_empty) == Some(
            EditorError::EmptyMesh,
        ),
        data.positions@.len() > 0 && data.indices@.len() % 3 != 0 ==> data_refusal(
            data,
            allow_empty,
        ) == Some(EditorError::BrokenMesh),
{
}

/// An edit of a track is refused where the track is not there; new keys, where there are
/// more or fewer of them than times, with both counts.
pub proof fn law_track_edit_is_refused_for_its_reason(
    v: TimelineView,
    f: Seq<Tree>,
    ms: Seq<CustomMaterial>,
    cmd: TrackCommand,
    clip: AssetId,
    track: usize,
)
    requires
        crate::motion_laws::edited_track(cmd) == Some((clip, track)),
    ensures
        !v.has_track(clip, track) ==> track_refusal(v, cmd, f, ms) == Some(
            EditorError::TargetNotFound,
        ),
        v.has_track(clip, track) && !(cmd is SetTrackKeys) ==> track_refusal(v, cmd, f, ms) is None,
        v.has_track(clip, track) ==> (cmd matches TrackCommand::SetTrackKeys {
            times,
            values,
            keys,
            ..
        } ==> {
            let r = track_refusal(v, cmd, f, ms);
            &&& keys@.len() > 0 && keys@.len() == times@.len() ==> r is None
            &&& keys@.len() == 0 && values@.len() == times@.len() ==> r is None
            &&& keys@.len() > 0 && keys@.len() != times@.len() ==> r is Some && (times@.len()
                <= usize::MAX && keys@.len() <= usize::MAX ==> (r->0 matches EditorError::KeyCount {
                times: a,
                keys: b,
            } && a == times@.len() && b == keys@.len()))
            &&& keys@.len() == 0 && values@.len() != times@.len() ==> r is Some && (times@.len()
                <= usize::MAX && values@.len() <= usize::MAX ==> (r->0 matches
                EditorError::ValueCount { times: a, values: b } && a == times@.len() && b
                == values@.len()))
        }),
{
}

/// An edit of a material is refused where the library does not have it, and an edit of a
/// definition where the material is written in a shader language.
pub proof fn law_library_edit_is_refused_for_its_reason(
    v: LibraryView,
    cmd: LibraryCommand,
    includes: Seq<&'static str>,
    inputs: Seq<&'static str>,
    w: LibraryView,
    r: Result<Option<LibraryCommand>, EditorError>,
    id: AssetId,
)
    requires
        library_step(v, cmd, includes, inputs, w, r),
        crate::library_edit::edited_id(cmd) == Some(id),
    ensures
        ({
            let defines = cmd is UpdateBuiltinMaterial || cmd is SetBuiltinAlphaMode;
            &&& !v.has_material(id) ==> r == Err::<Option<LibraryCommand>, EditorError>(
                if defines {
                    EditorError::NoMaterial(id)
                } else {
                    EditorError::TargetNotFound
                },
            )
            &&& v.has_material(id) && defines && v.material(id).builtin is None ==> r is Err
            &&& v.has_material(id) && defines && v.material(id).builtin is Some ==> r is Ok
            &&& v.has_material(id) && !defines && !(cmd is SetMaterialUniform) ==> r is Ok
            &&& r is Err ==> w == v
        }),
{
}

/// A chain runs from its end over the joint in the middle to its root, each known by its
/// node; where a node is not made, that is the reason that is told.
pub proof fn law_chain_is_that_of_its_nodes(
    nodes: Map<u128, RenderNode>,
    parents: Map<u128, u64>,
    owners: Map<u128, NodeId>,
    end: NodeId,
    root: Option<NodeId>,
)
    ensures
        !nodes.contains_key(end.0) ==> chain_of(nodes, parents, owners, end, root) == Err::<
            crate::rig::IkChain,
            QueryError,
        >(QueryError::EndNotMade(end)),
        nodes.contains_key(end.0) ==> (root matches Some(r) ==> (!nodes.contains_key(r.0)
            ==> chain_of(nodes, parents, owners, end, root) == Err::<
            crate::rig::IkChain,
            QueryError,
        >(QueryError::RootNotMade(r)))),
        chain_of(nodes, parents, owners, end, root) matches Ok(c) ==> {
            &&& c.end_key == nodes[end.0].transform_key
            &&& owners.contains_key(c.mid_key as u128) && owners[c.mid_key as u128] == c.mid_node
            &&& owners.contains_key(c.root_key as u128) && owners[c.root_key as u128]
                == c.root_node
            &&& root matches Some(r) ==> c.root_key == nodes[r.0].transform_key
            &&& root is None ==> parents.contains_key(c.end_key as u128) && parents[c.end_key as u128]
                == c.mid_key && parents[c.mid_key as u128] == c.root_key
        },
{
}

/// While it is sampled nothing plays; afterwards it plays on from where it was.
pub proof fn law_sampling_stops_and_goes_on(v: TimelineView, t: Transport)
    ensures
        !sampling(v).playing,
        sampling(v).playhead == v.playhead,
        sampling(v).clips == v.clips && sampling(v).current_clip == v.current_clip,
        sampling(v).layers == v.layers && sampling(v).fps == v.fps,
        resumed(v, t).playing == t.playing,
        resumed(v, t).playhead == t.playhead,
        resumed(v, t).clips == v.clips && resumed(v, t).current_clip == v.current_clip,
{
}

/// A document mentions what its texts, its members and its keys mention.
pub proof fn law_documents_mention_what_is_in_them(doc: Json, id: u128, i: int)
    ensures
        doc matches Json::Text(s) ==> mentions(doc, id) == (crate::ids::parsed_id(s@) == Some(id)),
        doc matches Json::Array(items) ==> (0 <= i < items@.len() && mentions(items@[i], id)
            ==> mentions(doc, id)),
        doc matches Json::Object(ms) ==> (0 <= i < ms@.len() && (mentions(ms@[i].value, id)
            || crate::ids::parsed_id(ms@[i].key@) == Some(id)) ==> mentions(doc, id)),
        doc is Null || doc is Bool || doc is Number ==> !mentions(doc, id),
{
    if let Json::Array(items) = doc {
        if 0 <= i < items@.len() && mentions(items@[i], id) {
            assert(mentions(doc, id));
        }
    }
    if let Json::Object(ms) = doc {
        if 0 <= i < ms@.len() && (mentions(ms@[i].value, id) || crate::ids::parsed_id(ms@[i].key@)
            == Some(id)) {
            assert(mentions(doc, id));
        }
    }
}

/// What nothing mentions is not in use.
pub proof fn law_what_nothing_mentions_is_unused(
    roots: Seq<Json>,
    docs: Map<u128, Json>,
    id: u128,
)
    requires
        !any_mentions(roots, id),
        forall|k: u128| #[trigger] docs.contains_key(k) ==> !mentions(docs[k], id),
    ensures
        !in_use(roots, docs, id),
{
    let s = Set::new(|k: u128| k != id);
    assert(closed_under(roots, docs, s)) by {
        assert forall|from: u128, k: u128|
            #![trigger s.contains(from), s.contains(k)]
            s.contains(from) && docs.contains_key(from) && docs.contains_key(k) && mentions(
                docs[from],
                k,
            ) implies s.contains(k) by {
            assert(docs.contains_key(from));
        }
    }
    assert(!s.contains(id));
}

/// A session starts with the scene, with nothing selected, and tells what is done.
pub proof fn law_session_starts_with_the_scene(s: SessionView)
    requires
        fresh_session(s),
    ensures
        s.mode == EditorMode::Scene,
        s.selected.len() == 0 && s.vertex_selection is None && s.asset_selection is None,
        s.follow_agent && s.activity_overlay && s.mcp_notifications,
        s.settings.gizmo && s.settings.skeleton_viz && s.settings.auto_key && s.settings.msaa
            && s.settings.shadow_denoise,
        !s.settings.grid && !s.settings.light_gizmos && !s.settings.smaa && !s.settings.heatmap
            && !s.settings.snap && !s.settings.editor_ortho && !s.settings.cam_clip_manual,
        s.settings.units@ == "meters"@,
        s.settings.cam_clip_near.before(s.settings.cam_clip_far),
{
}

/// An instance that nothing is given for starts with the values of its registration, and
/// with no texture and no buffer.
pub proof fn law_fresh_instance_has_the_defaults(
    r: MaterialRegistration,
    shader: MaterialShaderId,
    m: DynamicMaterial,
    i: int,
)
    requires
        is_fresh(r, shader, m),
    ensures
        m.shader_id == shader,
        m.alpha_mode == r.alpha_mode && m.double_sided == r.double_sided,
        m.values@.len() == r.uniforms@.len(),
        0 <= i < r.uniforms@.len() && i < r.uniform_defaults@.len()
            && r.uniform_defaults@[i].type_of() == r.uniforms@[i].ty ==> m.values@[i]
            == r.uniform_defaults@[i],
        0 <= i < r.uniforms@.len() ==> m.values@[i].type_of() == r.uniforms@[i].ty,
        m.textures@.len() == r.textures@.len() && m.buffers@.len() == r.buffers@.len(),
        0 <= i < r.textures@.len() ==> m.textures@[i] is None,
        0 <= i < r.buffers@.len() ==> m.buffers@[i] is None,
{
    if 0 <= i < r.uniforms@.len() {
        assert(crate::dynamic::starts_with(r, i, m.values@[i]));
    }
}

/// A tree lacks a material where one of its meshes has none, its own or one below it.
pub proof fn law_tree_lacks_what_a_mesh_lacks(n: AssetTemplateNode, i: int)
    ensures
        0 <= i < n.primitives@.len() && n.primitives@[i].material_index is None ==> lacks_material(
            n,
        ),
        0 <= i < n.children@.len() && lacks_material(n.children@[i]) ==> lacks_material(n),
        (forall|k: int|
            0 <= k < n.primitives@.len() ==> (#[trigger] n.primitives@[k]).material_index is Some)
            && (forall|k: int|
            0 <= k < n.children@.len() ==> !lacks_material(#[trigger] n.children@[k]))
            ==> !lacks_material(n),
{
}

/// A node is found by its index wherever it stands; the meshes of trees are those of
/// their nodes.
pub proof fn law_first_node_is_found_by_its_index(nodes: Seq<AssetTemplateNode>, index: u32)
    requires
        nodes.len() > 0,
    ensures
        nodes[0].gltf_node_index == index ==> found(nodes, index) == Some(nodes[0]),
        found(nodes, index) matches Some(n) ==> n.gltf_node_index == index,
        mesh_keys(nodes).len() == nodes[0].primitives@.len() + mesh_keys(
            nodes[0].children@,
        ).len() + mesh_keys(nodes.drop_first()).len(),
        forall|i: int|
            0 <= i < nodes[0].primitives@.len() ==> #[trigger] mesh_keys(nodes)[i]
                == nodes[0].primitives@[i].mesh_key,
    decreases nodes,
{
    reveal_with_fuel(found, 2);
    if nodes[0].children@.len() > 0 {
        law_first_node_is_found_by_its_index(nodes[0].children@, index);
    }
    if nodes.len() > 1 {
        law_first_node_is_found_by_its_index(nodes.drop_first(), index);
    }
}

/// A change of the scene is counted.
pub proof fn law_change_of_the_scene_is_counted<
    F: Fn(&ModifierStack, &VertexOverrides, &Table<MeshData>) -> MeshData,
>(
    eval: F,
    v: WorkView,
    cmd: EditorCommand,
    w: WorkView,
    r: Result<Seq<EditorCommand>, EditorError>,
)
    requires
        work_step(eval, v, cmd, w, r),
        !(cmd is ResetToBindPose) && !(cmd is NewProject),
    ensures
        w.nodes != v.nodes ==> w.scene_revision != v.scene_revision,
        r is Err ==> w.scene_revision == v.scene_revision,
        cmd is View || cmd is Transport || cmd is Clip || cmd is Track || cmd is Mixer
            ==> w.scene_revision == v.scene_revision,
{
    reveal(work_step);
}

/// What templates left is removed one template after the other.
pub proof fn law_templates_are_removed_in_order(
    templates: Seq<AssetTemplate>,
    last: AssetTemplate,
    i: int,
)
    requires
        0 <= i < crate::asset_template::removals(last.roots@).len(),
    ensures
        ({
            let a = template_leftovers(templates);
            let r = template_leftovers(templates.push(last));
            let own = crate::asset_template::removals(last.roots@);
            &&& r.len() == a.len() + own.len()
            &&& r.take(a.len() as int) == a
            &&& r[a.len() + i] == Leftover::Template(own[i])
        }),
{
    assert(templates.push(last).drop_last() =~= templates);
    let a = template_leftovers(templates);
    let r = template_leftovers(templates.push(last));
    assert(r.take(a.len() as int) =~= a);
}

/// An import adds to the project: its nodes after those that are there, its materials
/// after those of the library, its clips after those of the timeline. What is there
/// stays, and the project is to be saved.
pub proof fn law_import_adds_to_the_project(
    v: WorkView,
    imp: ModelImport,
    base: u128,
    ctx: ImportContext,
    rows: Seq<(u128, crate::assets::AssetEntry)>,
    w: WorkView,
    i: int,
)
    requires
        import_step(v, imp, base, ctx, rows, w),
    ensures
        w.nodes.len() == v.nodes.len() + imp.roots@.len(),
        0 <= i < v.nodes.len() ==> w.nodes[i] == v.nodes[i],
        0 <= i < v.library.materials.len() ==> w.library.materials[i] == v.library.materials[i],
        w.library.current == v.library.current,
        w.library.materials.len() >= v.library.materials.len() + imp.materials@.len(),
        (w.library.materials.len() > v.library.materials.len() + imp.materials@.len())
            == needs_default(imp.roots@),
        0 <= i < imp.materials@.len() ==> {
            let m = w.library.materials[v.library.materials.len() + i];
            &&& m.id == material_id(base, i as nat)
            &&& m.builtin is Some
            &&& ctx.mat_ids@.len() == imp.materials@.len()
            &&& ctx.mat_ids@[i] == m.id
        },
        needs_default(imp.roots@) ==> ctx.default_mat is Some
            && w.library.materials.last().id == ctx.default_mat->0,
        !needs_default(imp.roots@) ==> ctx.default_mat is None,
        ctx.source == file_id(base),
        w.timeline.clips.len() == v.timeline.clips.len() + imp.animations@.len(),
        w.dirty,
        w.scene_revision != v.scene_revision,
        w.session == v.session && w.world == v.world && w.skins == v.skins,
{
    let n = v.nodes.len() as int;
    let m = v.library.materials.len() as int;
    if 0 <= i < n {
        assert(w.nodes.take(n)[i] == v.nodes[i]);
    }
    if 0 <= i < m {
        assert(w.library.materials.take(m)[i] == v.library.materials[i]);
    }
    if 0 <= i < imp.materials@.len() {
        assert(crate::import_library::is_imported_material(
            w.library.materials[m + i],
            imp.materials@[i],
            material_id(base, i as nat),
            crate::import_library::imported_def(
                crate::import_library::rows_through(imp.materials@, imp.images@, i as nat),
                imp.images@,
                imp.materials@[i],
                base,
            ),
        ));
    }
}

/// What is told of an import is what it made.
pub proof fn law_import_is_told_as_made(
    v: WorkView,
    imp: ModelImport,
    base: u128,
    ctx: ImportContext,
    w: WorkView,
    r: Imported,
    i: int,
)
    requires
        reports(v, imp, base, ctx, w, r),
    ensures
        r.source == file_id(base),
        r.roots@.len() == imp.roots@.len(),
        0 <= i < r.roots@.len() ==> r.roots@[i].id == w.nodes[v.nodes.len() + i].id
            && r.roots@[i].name@ == w.nodes[v.nodes.len() + i].data.name@,
        r.materials@.len() == imp.materials@.len(),
        0 <= i < r.materials@.len() ==> r.materials@[i] == material_id(base, i as nat),
        r.clips == imp.animations@.len(),
        r.skin_joints == r.joints@.len(),
        r.instances@ == ids(w.nodes.skip(v.nodes.len() as int)),
{
}

} // verus!
