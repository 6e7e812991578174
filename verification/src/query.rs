//! The questions that can be asked of the editor, and their answers.
use crate::assets::ModifierStack;
use crate::clips::{clip_at, Track};
use crate::custom_material::{is_material, material_at};
use crate::find::lemma_first;
use crate::ids::{AssetId, NodeId};
use crate::list::List;
use crate::mesh_query::{
    asked, asked_overrides, asset_refusal, band, band_refusal, def_of, geometry_of, mesh_data,
    mesh_layers, mesh_modifiers, mesh_of, mesh_refusal, offset_or_zero, reports_layers,
    reports_layout, reports_selection, reports_triangles, reports_vertices, select_vertices_where,
    skinned, strip_band, uv_layout, vertex_data, vertex_refusal, within_mesh, MeshLayers,
    ReportStyle, SelectionReport, TriangleReport, UvReport, VertexReport,
};
use crate::query_errors::QueryError;
use crate::scene_query::{
    asked_nodes, asked_trees, asked_vertices, custom_material_wgsl, details_of, get_children,
    get_subtree, group_views, material_diagnostics, node_kind_details, node_transforms, options_of,
    outlines, poses_of, resolve_node_material, skin_data, skin_groups, skin_weights, tells_material,
    tells_node, track_data, view_options, weights_of, CompileDiagnostics, NodeBrief, NodeDetail,
    NodeMaterial, NodeOutline, NodePose, SkinGroup, SkinWeights, ViewOptions,
};
use crate::selections::SelectionsView;
use crate::skin::vertex_count;
use crate::snapshot::{snapshot, tells_state, EditorSnapshot};
use crate::table::Table;
use crate::timeline::{Timeline, TimelineView};
use crate::tree::find;
use crate::values::F64;
use crate::workspace::{WorkView, Workspace};
use crate::world::{PostProcessConfig, ShadowsConfig};
use vstd::prelude::*;

verus! {

/// A question. Some come with what the caller has worked out: the vertices that a
/// predicate selects, and the bones that the renderer follows.
#[allow(inconsistent_fields)]
pub enum EditorQuery {
    Snapshot,
    CustomMaterialWgsl { material: AssetId },
    MaterialDiagnostics { material: AssetId },
    ResolveNodeMaterial { node: NodeId },
    GetChildren { node: NodeId },
    GetSubtree { root: Option<NodeId> },
    SelectVerticesWhere { node: NodeId, found: List<u32>, style: ReportStyle },
    MeshModifiers { mesh: AssetId },
    GetVertexData {
        node: NodeId,
        indices: List<u32>,
        selection: Option<u32>,
        offset: Option<u32>,
        limit: Option<u32>,
        include_source: bool,
    },
    GetMeshLayers { node: NodeId },
    GetMeshData { node: NodeId, offset: Option<u32>, limit: Option<u32> },
    StripParameterize { node: NodeId, selection: Option<u32>, indices: List<u32> },
    UvLayout { node: NodeId, uv_set: Option<u32>, offset: Option<u32>, limit: Option<u32> },
    NodeTransforms { nodes: List<NodeId> },
    NodeKindDetails { nodes: List<NodeId> },
    SkinData { nodes: List<NodeId>, live: Table<bool> },
    GetSkinWeights { node: NodeId, indices: List<u32> },
    GetTrackData { clip: AssetId, track: usize },
    ViewOptions,
    PostProcess,
    Shadows,
}

/// An answer.
pub enum Answer {
    Snapshot(EditorSnapshot),
    Text(String),
    Diagnostics(CompileDiagnostics),
    Material(NodeMaterial),
    Children(Vec<NodeBrief>),
    Subtree(Vec<NodeOutline>),
    Selection(SelectionReport),
    Modifiers(ModifierStack),
    Vertices(VertexReport),
    Layers(MeshLayers),
    Triangles(TriangleReport),
    Band(Vec<u32>),
    Layout(Option<UvReport>),
    Transforms(Vec<NodePose>),
    Kinds(Vec<NodeDetail>),
    Skins(Vec<SkinGroup>),
    Weights(SkinWeights),
    Track(Track),
    Options(ViewOptions),
    PostProcess(PostProcessConfig),
    Shadows(ShadowsConfig),
    Error(QueryError),
}

/// Whether an answer is the one to a question about materials, where it is one.
pub open spec fn answers_material(v: WorkView, q: EditorQuery, a: Answer) -> bool {
    let ms = v.library.materials;
    match q {
        EditorQuery::CustomMaterialWgsl { material } => {
            let i = material_at(ms, material);
            if 0 <= i < ms.len() {
                a == Answer::Text(ms[i].wgsl)
            } else {
                a == Answer::Error(QueryError::NoCustomMaterial(material))
            }
        },
        EditorQuery::MaterialDiagnostics { material } => {
            let i = material_at(ms, material);
            if 0 <= i < ms.len() {
                a == Answer::Diagnostics(
                    CompileDiagnostics {
                        registered: ms[i].registered,
                        ok: ms[i].last_diagnostics@.len() == 0,
                        errors: ms[i].last_diagnostics,
                    },
                )
            } else {
                a == Answer::Error(QueryError::NoCustomMaterial(material))
            }
        },
        EditorQuery::ResolveNodeMaterial { node } => match find(v.nodes, node) {
            Some(t) => a matches Answer::Material(m) && tells_material(t.data.kind, ms, m),
            None => a == Answer::Error(QueryError::NoNode(node)),
        },
        _ => true,
    }
}

/// Whether an answer is the one to a question about nodes, where it is one.
pub open spec fn answers_scene(v: WorkView, undo: nat, redo: nat, q: EditorQuery, a: Answer) -> bool {
    match q {
        EditorQuery::Snapshot => a matches Answer::Snapshot(s) && tells_state(v, undo, redo, s),
        EditorQuery::GetChildren { node } => match find(v.nodes, node) {
            Some(t) => a matches Answer::Children(row) && row@.len() == t.children.len() && (forall|
                i: int,
            |
                0 <= i < row@.len() ==> tells_node(t.children[i], #[trigger] row@[i])),
            None => a == Answer::Error(QueryError::NoNode(node)),
        },
        EditorQuery::GetSubtree { root } => match asked_trees(v.nodes, root) {
            Some(ts) => a matches Answer::Subtree(row) && row@.len() == ts.len() && (forall|i: int|
                0 <= i < row@.len() ==> outlines(ts[i], #[trigger] row@[i])),
            None => a == Answer::Error(QueryError::NoNode(root->0)),
        },
        EditorQuery::NodeTransforms { nodes } => a matches Answer::Transforms(row) && row@
            == poses_of(v.nodes, asked_nodes(v.nodes, nodes@)),
        EditorQuery::NodeKindDetails { nodes } => a matches Answer::Kinds(row) && row@
            == details_of(v.nodes, asked_nodes(v.nodes, nodes@)),
        EditorQuery::SkinData { nodes, live } => a matches Answer::Skins(row) && group_views(row@)
            == skin_groups(v.nodes, live@.dom(), asked_nodes(v.nodes, nodes@)),
        EditorQuery::GetSkinWeights { node, indices } => if v.skins.contains_key(node.0) {
            let s = v.skins[node.0];
            a matches Answer::Weights(w) && w.vertex_count == vertex_count(s.sets, s.bytes.len())
                && w.set_count == s.sets && w.weights@ == weights_of(s, asked_vertices(s, indices@))
        } else {
            a == Answer::Error(QueryError::NoSkin(node))
        },
        EditorQuery::GetTrackData { clip, track } => {
            let i = clip_at(v.timeline.clips, clip);
            if 0 <= i < v.timeline.clips.len() && track < v.timeline.clips[i].tracks.len() {
                a matches Answer::Track(t) && t.shape() == v.timeline.clips[i].tracks[track as int]
            } else {
                a == Answer::Error(QueryError::NoTrack { clip, track })
            }
        },
        EditorQuery::ViewOptions => a == Answer::Options(options_of(v.session)),
        EditorQuery::PostProcess => a == Answer::PostProcess(v.world.post_process),
        EditorQuery::Shadows => a == Answer::Shadows(v.world.shadows),
        _ => true,
    }
}

/// Whether an answer is the one to a question about geometry, where it is one.
pub open spec fn answers_mesh(
    v: WorkView,
    q: EditorQuery,
    selections: SelectionsView,
    a: Answer,
) -> bool {
    let f = v.nodes;
    match q {
        EditorQuery::SelectVerticesWhere { node, found, style } => match mesh_refusal(
            f,
            v.store,
            node,
        ) {
            Some(e) => a == Answer::Error(e) && selections == v.selections,
            None => a matches Answer::Selection(r) && reports_selection(
                v.selections,
                found@,
                style,
                selections,
                r,
            ),
        },
        EditorQuery::MeshModifiers { mesh } => match asset_refusal(v.store, mesh) {
            Some(e) => a == Answer::Error(e),
            None => a == Answer::Modifiers(v.store.assets[mesh.0].source->Mesh_0.stack),
        },
        EditorQuery::GetVertexData { node, indices, selection, offset, limit, include_source } => match vertex_refusal(
            f,
            v.store,
            v.selections,
            node,
            selection,
        ) {
            Some(e) => a == Answer::Error(e),
            None => a matches Answer::Vertices(r) && reports_vertices(
                geometry_of(f, v.store, node)->0,
                asked_overrides(f, v.store, node, include_source),
                asked(v.selections, selection, indices@)->0,
                offset,
                limit,
                r,
            ),
        },
        EditorQuery::GetMeshLayers { node } => if skinned(f, node) {
            a == Answer::Error(QueryError::SkinnedNode(node))
        } else {
            match def_of(f, v.store, node) {
                Some(d) => a matches Answer::Layers(r) && reports_layers(
                    d,
                    mesh_of(f, node)->0,
                    r,
                ),
                None => a == Answer::Error(QueryError::NoMeshAsset(node)),
            }
        },
        EditorQuery::GetMeshData { node, offset, limit } => match mesh_refusal(f, v.store, node) {
            Some(e) => a == Answer::Error(e),
            None => a matches Answer::Triangles(r) && reports_triangles(
                geometry_of(f, v.store, node)->0,
                offset,
                limit,
                r,
            ),
        },
        EditorQuery::StripParameterize { node, selection, indices } => match band_refusal(
            f,
            v.store,
            v.selections,
            node,
            selection,
        ) {
            Some(e) => a == Answer::Error(e),
            None => {
                let count = geometry_of(f, v.store, node)->0.positions@.len();
                a matches Answer::Band(row) && row@ == within_mesh(
                    band(v.selections, selection, indices@, count),
                    count,
                )
            },
        },
        EditorQuery::UvLayout { node, uv_set, offset, limit } => match mesh_refusal(
            f,
            v.store,
            node,
        ) {
            Some(e) => a == Answer::Error(e),
            None => a matches Answer::Layout(r) && reports_layout(
                geometry_of(f, v.store, node)->0,
                offset_or_zero(uv_set),
                offset,
                limit,
                r,
            ),
        },
        _ => true,
    }
}

/// Whether `a` is the answer to a question, and `w` the workspace after it. Only a
/// selection that is to be kept changes anything.
pub open spec fn answers(
    v: WorkView,
    undo: nat,
    redo: nat,
    q: EditorQuery,
    w: WorkView,
    a: Answer,
) -> bool {
    &&& w == (WorkView { selections: w.selections, ..v })
    &&& !(q is SelectVerticesWhere) ==> w == v
    &&& answers_material(v, q, a)
    &&& answers_scene(v, undo, redo, q, a)
    &&& answers_mesh(v, q, w.selections, a)
}

impl Workspace {
    fn ask_wgsl(&self, material: AssetId) -> (a: Answer)
        ensures
            answers_material(self@, EditorQuery::CustomMaterialWgsl { material }, a),
    {
        proof {
            lemma_first(self.library.materials@, is_material(material));
        }
        match custom_material_wgsl(&self.library.materials, material) {
            Ok(s) => Answer::Text(s),
            Err(e) => Answer::Error(e),
        }
    }

    fn ask_diagnostics(&self, material: AssetId) -> (a: Answer)
        ensures
            answers_material(self@, EditorQuery::MaterialDiagnostics { material }, a),
    {
        proof {
            lemma_first(self.library.materials@, is_material(material));
        }
        match material_diagnostics(&self.library.materials, material) {
            Ok(d) => Answer::Diagnostics(d),
            Err(e) => Answer::Error(e),
        }
    }

    fn ask_children(&self, node: NodeId) -> (a: Answer)
        ensures
            answers_scene(self@, 0, 0, EditorQuery::GetChildren { node }, a),
    {
        match get_children(&self.nodes, node) {
            Ok(row) => Answer::Children(row),
            Err(e) => Answer::Error(e),
        }
    }

    fn ask_subtree(&self, root: Option<NodeId>) -> (a: Answer)
        ensures
            answers_scene(self@, 0, 0, EditorQuery::GetSubtree { root }, a),
    {
        match get_subtree(&self.nodes, root) {
            Ok(row) => Answer::Subtree(row),
            Err(e) => Answer::Error(e),
        }
    }

    fn ask_weights(&self, node: NodeId, indices: List<u32>) -> (a: Answer)
        ensures
            answers_scene(self@, 0, 0, EditorQuery::GetSkinWeights { node, indices }, a),
    {
        match skin_weights(&self.skins, node, indices) {
            Ok(w) => Answer::Weights(w),
            Err(e) => Answer::Error(e),
        }
    }

    fn ask_track(&self, clip: AssetId, track: usize) -> (a: Answer)
        ensures
            answers_scene(self@, 0, 0, EditorQuery::GetTrackData { clip, track }, a),
    {
        let ghost cs = self.timeline.clips@;
        let ghost i = clip_at(self@.timeline.clips, clip);
        match track_data(&self.timeline.clips, clip, track) {
            Ok(t) => {
                assert(self@.timeline.clips[i] == cs[i].shape());
                assert(self@.timeline.clips[i].tracks[track as int] == t.shape());
                Answer::Track(t)
            },
            Err(e) => Answer::Error(e),
        }
    }

    /// Answers a question. Nothing changes but for a selection that is to be kept.
    pub fn query(&mut self, undo_depth: usize, redo_depth: usize, q: EditorQuery) -> (a: Answer)
        ensures
            answers(old(self)@, undo_depth as nat, redo_depth as nat, q, final(self)@, a),
    {
        match q {
            EditorQuery::CustomMaterialWgsl { material } => self.ask_wgsl(material),
            EditorQuery::MaterialDiagnostics { material } => self.ask_diagnostics(material),
            EditorQuery::ResolveNodeMaterial { node } => match resolve_node_material(
                &self.nodes,
                &self.library.materials,
                node,
            ) {
                Ok(m) => Answer::Material(m),
                Err(e) => Answer::Error(e),
            },
            EditorQuery::Snapshot => Answer::Snapshot(snapshot(self, undo_depth, redo_depth)),
            EditorQuery::GetChildren { node } => self.ask_children(node),
            EditorQuery::GetSubtree { root } => self.ask_subtree(root),
            EditorQuery::NodeTransforms { nodes } => Answer::Transforms(
                node_transforms(&self.nodes, &nodes),
            ),
            EditorQuery::NodeKindDetails { nodes } => Answer::Kinds(
                node_kind_details(&self.nodes, &nodes),
            ),
            EditorQuery::SkinData { nodes, live } => Answer::Skins(
                skin_data(&self.nodes, &live, &nodes),
            ),
            EditorQuery::GetSkinWeights { node, indices } => self.ask_weights(node, indices),
            EditorQuery::GetTrackData { clip, track } => self.ask_track(clip, track),
            EditorQuery::ViewOptions => Answer::Options(view_options(&self.session)),
            EditorQuery::PostProcess => Answer::PostProcess(self.world.post_process),
            EditorQuery::Shadows => Answer::Shadows(self.world.shadows),
            EditorQuery::SelectVerticesWhere { node, found, style } => match select_vertices_where(
                &self.nodes,
                &self.store,
                &mut self.selections,
                node,
                found,
                style,
            ) {
                Ok(r) => Answer::Selection(r),
                Err(e) => Answer::Error(e),
            },
            EditorQuery::MeshModifiers { mesh } => match mesh_modifiers(&self.store, mesh) {
                Ok(s) => Answer::Modifiers(s),
                Err(e) => Answer::Error(e),
            },
            EditorQuery::GetVertexData {
                node,
                indices,
                selection,
                offset,
                limit,
                include_source,
            } => match vertex_data(
                &self.nodes,
                &self.store,
                &self.selections,
                node,
                indices,
                selection,
                offset,
                limit,
                include_source,
            ) {
                Ok(r) => Answer::Vertices(r),
                Err(e) => Answer::Error(e),
            },
            EditorQuery::GetMeshLayers { node } => match mesh_layers(
                &self.nodes,
                &self.store,
                node,
            ) {
                Ok(r) => Answer::Layers(r),
                Err(e) => Answer::Error(e),
            },
            EditorQuery::GetMeshData { node, offset, limit } => match mesh_data(
                &self.nodes,
                &self.store,
                node,
                offset,
                limit,
            ) {
                Ok(r) => Answer::Triangles(r),
                Err(e) => Answer::Error(e),
            },
            EditorQuery::StripParameterize { node, selection, indices } => match strip_band(
                &self.nodes,
                &self.store,
                &self.selections,
                node,
                selection,
                indices,
            ) {
                Ok(row) => Answer::Band(row),
                Err(e) => Answer::Error(e),
            },
            EditorQuery::UvLayout { node, uv_set, offset, limit } => match uv_layout(
                &self.nodes,
                &self.store,
                node,
                uv_set,
                offset,
                limit,
            ) {
                Ok(r) => Answer::Layout(r),
                Err(e) => Answer::Error(e),
            },
        }
    }
}

/// A question never touches the project: its nodes, assets, materials, clips and
/// settings stay as they were, and so does what is left to save.
pub proof fn law_question_changes_no_project(
    v: WorkView,
    undo: nat,
    redo: nat,
    q: EditorQuery,
    w: WorkView,
    a: Answer,
)
    requires
        answers(v, undo, redo, q, w, a),
    ensures
        w.nodes == v.nodes,
        w.store == v.store,
        w.library == v.library,
        w.timeline == v.timeline,
        w.world == v.world,
        w.skins == v.skins,
        w.session == v.session,
        w.dirty == v.dirty,
{
}

/// How the transport stood.
#[derive(Clone, Copy, PartialEq, Eq, Structural, Debug)]
pub struct Transport {
    pub playing: bool,
    pub playhead: F64,
}

/// A timeline that stands still for sampling.
pub open spec fn sampling(v: TimelineView) -> TimelineView {
    TimelineView { playing: false, ..v }
}

/// A timeline whose transport stands as it did.
pub open spec fn resumed(v: TimelineView, t: Transport) -> TimelineView {
    TimelineView { playing: t.playing, playhead: t.playhead, ..v }
}

/// Stops the transport, so that poses can be sampled, and says how it stood.
pub fn begin_sampling(timeline: &mut Timeline) -> (t: Transport)
    ensures
        t.playing == old(timeline).playing,
        t.playhead == old(timeline).playhead,
        final(timeline)@ == sampling(old(timeline)@),
{
    let t = Transport { playing: timeline.playing, playhead: timeline.playhead };
    timeline.playing = false;
    t
}

/// Lets the transport stand as it did.
pub fn end_sampling(timeline: &mut Timeline, t: Transport)
    ensures
        final(timeline)@ == resumed(old(timeline)@, t),
{
    timeline.playing = t.playing;
    timeline.playhead = t.playhead;
}

/// Sampling leaves the timeline as it was, wherever the playhead went meanwhile.
pub proof fn law_sampling_leaves_no_trace(v: TimelineView, playhead: F64)
    ensures
        resumed(
            TimelineView { playhead, ..sampling(v) },
            Transport { playing: v.playing, playhead: v.playhead },
        ) == v,
{
}

} // verus!
