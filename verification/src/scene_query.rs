//! Questions about nodes, their materials and skins, and about tracks.
use crate::clips::{clip_at, clip_shapes, find_track, Clip, Track};
use crate::custom_material::{find_material, material_at, CompileError, CustomMaterial};
use crate::find::{first, lemma_first_is};
use crate::ids::{AssetId, NodeId};
use crate::list::{List, Same};
use crate::material::MaterialShading;
use crate::node::{unassigned_material_kind, NodeKind, SkinJoint};
use crate::query_errors::QueryError;
use crate::session::{Session, SessionView};
use crate::skin::{entry_at, vertex_count, vertex_within, SkinStream, SkinView, SkinWeightEntry};
use crate::table::Table;
use crate::tree::{collect_ids, find, find_by_id, forest, ids, lemma_model, Node, Tree};
use crate::values::{Trs, Vec4};
use vstd::prelude::*;

verus! {

/// The source of a custom material.
pub fn custom_material_wgsl(ms: &Vec<CustomMaterial>, material: AssetId) -> (r: Result<
    String,
    QueryError,
>)
    ensures
        match r {
            Ok(s) => material_at(ms@, material) < ms@.len() && s == ms@[material_at(
                ms@,
                material,
            )].wgsl,
            Err(e) => material_at(ms@, material) == ms@.len() && e == QueryError::NoCustomMaterial(
                material,
            ),
        },
{
    match find_material(ms, material) {
        Some(i) => Ok(ms[i].wgsl.clone()),
        None => Err(QueryError::NoCustomMaterial(material)),
    }
}

/// What compiling a material reported.
pub struct CompileDiagnostics {
    pub registered: bool,
    pub ok: bool,
    pub errors: List<CompileError>,
}

/// What compiling a material reported.
pub fn material_diagnostics(ms: &Vec<CustomMaterial>, material: AssetId) -> (r: Result<
    CompileDiagnostics,
    QueryError,
>)
    ensures
        match r {
            Ok(d) => {
                let m = ms@[material_at(ms@, material)];
                &&& material_at(ms@, material) < ms@.len()
                &&& d.registered == m.registered
                &&& d.ok == (m.last_diagnostics@.len() == 0)
                &&& d.errors == m.last_diagnostics
            },
            Err(e) => material_at(ms@, material) == ms@.len() && e == QueryError::NoCustomMaterial(
                material,
            ),
        },
{
    match find_material(ms, material) {
        Some(i) => Ok(
            CompileDiagnostics {
                registered: ms[i].registered,
                ok: ms[i].last_diagnostics.is_empty(),
                errors: ms[i].last_diagnostics.clone(),
            },
        ),
        None => Err(QueryError::NoCustomMaterial(material)),
    }
}

/// What a library material is.
pub enum MaterialOrigin {
    Builtin { name: String, shading: MaterialShading },
    Custom { name: String },
    /// It is not in the library.
    Unknown,
}

/// The material that a node renders with.
pub enum NodeMaterial {
    /// It renders with none.
    Unassigned { kind: &'static str },
    Assigned { asset: AssetId, base_color: Vec4, origin: MaterialOrigin },
}

/// What a library material is.
pub open spec fn origin_of(ms: Seq<CustomMaterial>, asset: AssetId) -> MaterialOrigin {
    let i = material_at(ms, asset);
    if 0 <= i < ms.len() {
        match ms[i].builtin {
            Some(d) => MaterialOrigin::Builtin { name: ms[i].name, shading: d.shading },
            None => MaterialOrigin::Custom { name: ms[i].name },
        }
    } else {
        MaterialOrigin::Unknown
    }
}

/// Whether an answer tells the material that a kind renders with.
pub open spec fn tells_material(k: NodeKind, ms: Seq<CustomMaterial>, r: NodeMaterial) -> bool {
    match r {
        NodeMaterial::Unassigned { kind } => !k.assigned() && kind@ == if k is Mesh
            || k is SkinnedMesh {
            "unassigned"@
        } else {
            "none"@
        },
        NodeMaterial::Assigned { asset, base_color, origin } => {
            &&& k.assigned()
            &&& asset == k.current().asset
            &&& base_color == k.current().inline.base_color
            &&& origin == origin_of(ms, asset)
        },
    }
}

/// The material that a node renders with.
pub fn resolve_node_material(nodes: &Vec<Node>, ms: &Vec<CustomMaterial>, node: NodeId) -> (r: Result<
    NodeMaterial,
    QueryError,
>)
    ensures
        match r {
            Ok(a) => find(forest(nodes@), node) is Some && tells_material(
                find(forest(nodes@), node)->0.data.kind,
                ms@,
                a,
            ),
            Err(e) => find(forest(nodes@), node) is None && e == QueryError::NoNode(node),
        },
{
    let n = match find_by_id(nodes, node) {
        Some(n) => n,
        None => {
            return Err(QueryError::NoNode(node));
        },
    };
    proof {
        lemma_model(*n);
    }
    match n.data.kind.selected_material() {
        None => Ok(NodeMaterial::Unassigned { kind: unassigned_material_kind(&n.data.kind) }),
        Some(inst) => {
            let origin = match find_material(ms, inst.asset) {
                Some(i) => match &ms[i].builtin {
                    Some(d) => MaterialOrigin::Builtin {
                        name: ms[i].name.clone(),
                        shading: d.shading,
                    },
                    None => MaterialOrigin::Custom { name: ms[i].name.clone() },
                },
                None => MaterialOrigin::Unknown,
            };
            Ok(
                NodeMaterial::Assigned {
                    asset: inst.asset,
                    base_color: inst.inline.base_color,
                    origin,
                },
            )
        },
    }
}

/// A node in few words.
pub struct NodeBrief {
    pub id: NodeId,
    pub name: String,
    pub kind: String,
}

/// A node in few words, with what is below it.
pub struct NodeOutline {
    pub brief: NodeBrief,
    pub children: Vec<NodeOutline>,
}

/// Whether a line tells of a node.
pub open spec fn tells_node(t: Tree, b: NodeBrief) -> bool {
    &&& b.id == t.id
    &&& b.name == t.data.name
    &&& b.kind@ == t.data.kind.label_text()
}

/// Whether an outline tells of a node and everything below it.
pub open spec fn outlines(t: Tree, o: NodeOutline) -> bool
    decreases t,
{
    &&& tells_node(t, o.brief)
    &&& o.children@.len() == t.children.len()
    &&& forall|i: int|
        0 <= i < t.children.len() ==> outlines(#[trigger] t.children[i], o.children@[i])
}

/// A node in few words.
pub fn node_brief(n: &Node) -> (b: NodeBrief)
    ensures
        tells_node(n.model(), b),
{
    proof {
        lemma_model(*n);
    }
    NodeBrief { id: n.id, name: n.data.name.clone(), kind: n.data.kind.label() }
}

/// A node with everything below it, in few words.
pub fn node_outline(n: &Node) -> (o: NodeOutline)
    ensures
        outlines(n.model(), o),
    decreases n,
{
    proof {
        lemma_model(*n);
    }
    let brief = node_brief(n);
    let mut children: Vec<NodeOutline> = Vec::new();
    let mut i: usize = 0;
    while i < n.children.len()
        invariant
            i <= n.children@.len(),
            children@.len() == i,
            n.model().children == forest(n.children@),
            forall|j: int|
                0 <= j < i ==> outlines(n.model().children[j], #[trigger] children@[j]),
        decreases n.children@.len() - i,
    {
        assert(decreases_to!(*n => n.children@[i as int]));
        children.push(node_outline(&n.children[i]));
        i += 1;
    }
    NodeOutline { brief, children }
}

/// The nodes directly below a node.
pub fn get_children(nodes: &Vec<Node>, node: NodeId) -> (r: Result<Vec<NodeBrief>, QueryError>)
    ensures
        match r {
            Ok(row) => {
                let n = find(forest(nodes@), node);
                &&& n is Some
                &&& row@.len() == n->0.children.len()
                &&& forall|i: int|
                    0 <= i < row@.len() ==> tells_node(n->0.children[i], #[trigger] row@[i])
            },
            Err(e) => find(forest(nodes@), node) is None && e == QueryError::NoNode(node),
        },
{
    let n = match find_by_id(nodes, node) {
        Some(n) => n,
        None => {
            return Err(QueryError::NoNode(node));
        },
    };
    proof {
        lemma_model(*n);
    }
    let mut row: Vec<NodeBrief> = Vec::new();
    let mut i: usize = 0;
    while i < n.children.len()
        invariant
            i <= n.children@.len(),
            row@.len() == i,
            n.model().children == forest(n.children@),
            forall|j: int| 0 <= j < i ==> tells_node(n.model().children[j], #[trigger] row@[j]),
        decreases n.children@.len() - i,
    {
        row.push(node_brief(&n.children[i]));
        i += 1;
    }
    Ok(row)
}

/// The trees that are asked about: that of a node, or all of them.
pub open spec fn asked_trees(f: Seq<Tree>, root: Option<NodeId>) -> Option<Seq<Tree>> {
    match root {
        Some(id) => match find(f, id) {
            Some(t) => Some(seq![t]),
            None => None,
        },
        None => Some(f),
    }
}

/// A node with everything below it, or the whole scene.
pub fn get_subtree(nodes: &Vec<Node>, root: Option<NodeId>) -> (r: Result<Vec<NodeOutline>, QueryError>)
    ensures
        match r {
            Ok(row) => {
                let ts = asked_trees(forest(nodes@), root);
                &&& ts is Some
                &&& row@.len() == ts->0.len()
                &&& forall|i: int|
                    0 <= i < row@.len() ==> outlines(ts->0[i], #[trigger] row@[i])
            },
            Err(e) => root is Some && find(forest(nodes@), root->0) is None && e
                == QueryError::NoNode(root->0),
        },
{
    let mut row: Vec<NodeOutline> = Vec::new();
    match root {
        Some(id) => match find_by_id(nodes, id) {
            Some(n) => {
                row.push(node_outline(n));
                Ok(row)
            },
            None => Err(QueryError::NoNode(id)),
        },
        None => {
            let mut i: usize = 0;
            while i < nodes.len()
                invariant
                    i <= nodes@.len(),
                    row@.len() == i,
                    forall|j: int|
                        0 <= j < i ==> outlines(forest(nodes@)[j], #[trigger] row@[j]),
                decreases nodes@.len() - i,
            {
                row.push(node_outline(&nodes[i]));
                i += 1;
            }
            Ok(row)
        },
    }
}

/// The nodes that are asked about: those named, or all of them, depth first.
pub open spec fn asked_nodes(f: Seq<Tree>, requested: Seq<NodeId>) -> Seq<NodeId> {
    if requested.len() > 0 {
        requested
    } else {
        ids(f)
    }
}

/// The nodes that are asked about.
pub fn resolve_node_ids(nodes: &Vec<Node>, requested: &List<NodeId>) -> (r: Vec<NodeId>)
    ensures
        r@ == asked_nodes(forest(nodes@), requested@),
{
    if requested.is_empty() {
        collect_ids(nodes)
    } else {
        requested.to_vec()
    }
}

/// The placement of a node.
#[derive(Clone, Copy, PartialEq, Eq, Structural, Debug)]
pub struct NodePose {
    pub node: NodeId,
    pub transform: Trs,
}

/// The placements of those nodes of a row that stand in the scene.
pub open spec fn poses_of(f: Seq<Tree>, row: Seq<NodeId>) -> Seq<NodePose>
    decreases row.len(),
{
    if row.len() == 0 {
        seq![]
    } else {
        let front = poses_of(f, row.drop_last());
        match find(f, row.last()) {
            Some(t) => front.push(NodePose { node: row.last(), transform: t.data.transform }),
            None => front,
        }
    }
}

/// The placements of nodes; all of them where none is named.
pub fn node_transforms(nodes: &Vec<Node>, requested: &List<NodeId>) -> (r: Vec<NodePose>)
    ensures
        r@ == poses_of(forest(nodes@), asked_nodes(forest(nodes@), requested@)),
{
    let row = resolve_node_ids(nodes, requested);
    let mut out: Vec<NodePose> = Vec::new();
    let mut i: usize = 0;
    while i < row.len()
        invariant
            i <= row@.len(),
            out@ == poses_of(forest(nodes@), row@.take(i as int)),
        decreases row@.len() - i,
    {
        if let Some(n) = find_by_id(nodes, row[i]) {
            out.push(NodePose { node: row[i], transform: n.data.transform });
        }
        i += 1;
        assert(row@.take(i as int).drop_last() =~= row@.take(i - 1));
    }
    assert(row@.take(i as int) =~= row@);
    out
}

/// The kind of a node.
pub struct NodeDetail {
    pub node: NodeId,
    pub kind: NodeKind,
}

/// The kinds of those nodes of a row that stand in the scene.
pub open spec fn details_of(f: Seq<Tree>, row: Seq<NodeId>) -> Seq<NodeDetail>
    decreases row.len(),
{
    if row.len() == 0 {
        seq![]
    } else {
        let front = details_of(f, row.drop_last());
        match find(f, row.last()) {
            Some(t) => front.push(NodeDetail { node: row.last(), kind: t.data.kind }),
            None => front,
        }
    }
}

/// The kinds of nodes; of all of them where none is named.
pub fn node_kind_details(nodes: &Vec<Node>, requested: &List<NodeId>) -> (r: Vec<NodeDetail>)
    ensures
        r@ == details_of(forest(nodes@), asked_nodes(forest(nodes@), requested@)),
{
    let row = resolve_node_ids(nodes, requested);
    let mut out: Vec<NodeDetail> = Vec::new();
    let mut i: usize = 0;
    while i < row.len()
        invariant
            i <= row@.len(),
            out@ == details_of(forest(nodes@), row@.take(i as int)),
        decreases row@.len() - i,
    {
        if let Some(n) = find_by_id(nodes, row[i]) {
            out.push(NodeDetail { node: row[i], kind: n.data.kind.same() });
        }
        i += 1;
        assert(row@.take(i as int).drop_last() =~= row@.take(i - 1));
    }
    assert(row@.take(i as int) =~= row@);
    out
}

/// A mesh of a skin.
pub struct SkinMesh {
    pub node: NodeId,
    pub name: String,
    pub primitive_index: Option<u32>,
}

/// A bone of a skin, as its node stands.
pub struct JointLine {
    pub node: NodeId,
    pub index: u32,
    pub name: String,
    /// Whether posing the bone moves the skin.
    pub live: bool,
    pub transform: Trs,
}

/// A skin: the meshes that share it, and its bones.
pub struct SkinGroup {
    pub key: u128,
    pub source: AssetId,
    pub meshes: Vec<SkinMesh>,
    pub joints: Vec<JointLine>,
}

/// A bone of a skin, as a value.
#[verifier::ext_equal]
pub struct JointLineView {
    pub node: NodeId,
    pub index: u32,
    pub name: Seq<char>,
    pub live: bool,
    pub transform: Trs,
}

/// A skin as a value.
#[verifier::ext_equal]
pub struct SkinGroupView {
    pub key: u128,
    pub source: AssetId,
    pub meshes: Seq<(NodeId, Seq<char>, Option<u32>)>,
    pub joints: Seq<JointLineView>,
}

impl View for JointLine {
    type V = JointLineView;

    open spec fn view(&self) -> JointLineView {
        JointLineView {
            node: self.node,
            index: self.index,
            name: self.name@,
            live: self.live,
            transform: self.transform,
        }
    }
}

impl View for SkinGroup {
    type V = SkinGroupView;

    open spec fn view(&self) -> SkinGroupView {
        SkinGroupView {
            key: self.key,
            source: self.source,
            meshes: Seq::new(
                self.meshes@.len(),
                |i: int|
                    (self.meshes@[i].node, self.meshes@[i].name@, self.meshes@[i].primitive_index),
            ),
            joints: Seq::new(self.joints@.len(), |i: int| self.joints@[i]@),
        }
    }
}

/// The skins as values.
pub open spec fn group_views(row: Seq<SkinGroup>) -> Seq<SkinGroupView> {
    Seq::new(row.len(), |i: int| row[i]@)
}

/// Whether a skin has a key.
pub open spec fn has_group_key(key: u128) -> spec_fn(SkinGroupView) -> bool {
    |g: SkinGroupView| g.key == key
}

/// The key of a skin: its first bone, which each copy of a rig has for itself and
/// all meshes of one rig share; without bones, the file.
pub open spec fn group_key(joints: Seq<SkinJoint>, source: AssetId) -> u128 {
    if joints.len() > 0 {
        joints[0].node.0
    } else {
        source.0
    }
}

/// A bone, as its node stands in the scene.
pub open spec fn joint_line(f: Seq<Tree>, live: Set<u128>, j: SkinJoint) -> JointLineView {
    let n = find(f, j.node);
    JointLineView {
        node: j.node,
        index: j.index,
        name: match n {
            Some(t) => t.data.name@,
            None => "<missing>"@,
        },
        live: live.contains(j.node.0),
        transform: match n {
            Some(t) => t.data.transform,
            None => Trs::identity(),
        },
    }
}

/// The bones of a skin.
pub open spec fn joint_lines(f: Seq<Tree>, live: Set<u128>, joints: Seq<SkinJoint>) -> Seq<JointLineView> {
    Seq::new(joints.len(), |i: int| joint_line(f, live, joints[i]))
}

/// The skins with another node: its mesh joins the skin that it shares.
pub open spec fn grouped(groups: Seq<SkinGroupView>, f: Seq<Tree>, live: Set<u128>, id: NodeId) -> Seq<
    SkinGroupView,
> {
    match find(f, id) {
        None => groups,
        Some(t) => match t.data.kind {
            NodeKind::SkinnedMesh { skin, .. } => {
                let key = group_key(skin.joints@, skin.source);
                let mesh = (id, t.data.name@, skin.primitive_index);
                let i = first(groups, has_group_key(key));
                if 0 <= i < groups.len() {
                    groups.update(
                        i,
                        SkinGroupView { meshes: groups[i].meshes.push(mesh), ..groups[i] },
                    )
                } else {
                    groups.push(
                        SkinGroupView {
                            key,
                            source: skin.source,
                            meshes: seq![mesh],
                            joints: joint_lines(f, live, skin.joints@),
                        },
                    )
                }
            },
            _ => groups,
        },
    }
}

/// The skins of nodes.
pub open spec fn skin_groups(f: Seq<Tree>, live: Set<u128>, row: Seq<NodeId>) -> Seq<SkinGroupView>
    decreases row.len(),
{
    if row.len() == 0 {
        seq![]
    } else {
        grouped(skin_groups(f, live, row.drop_last()), f, live, row.last())
    }
}

fn list_joints(nodes: &Vec<Node>, live: &Table<bool>, joints: &List<SkinJoint>) -> (r: Vec<JointLine>)
    ensures
        Seq::new(r@.len(), |i: int| r@[i]@) == joint_lines(
            forest(nodes@),
            live@.dom(),
            joints@,
        ),
{
    let mut out: Vec<JointLine> = Vec::new();
    let mut i: usize = 0;
    while i < joints.len()
        invariant
            i <= joints@.len(),
            out@.len() == i,
            forall|j: int|
                0 <= j < i ==> (#[trigger] out@[j])@ == joint_line(
                    forest(nodes@),
                    live@.dom(),
                    joints@[j],
                ),
        decreases joints@.len() - i,
    {
        let j = *joints.at(i);
        let line = match find_by_id(nodes, j.node) {
            Some(n) => {
                proof {
                    lemma_model(*n);
                }
                JointLine {
                    node: j.node,
                    index: j.index,
                    name: n.data.name.clone(),
                    live: live.contains(j.node.0),
                    transform: n.data.transform,
                }
            },
            None => JointLine {
                node: j.node,
                index: j.index,
                name: "<missing>".to_owned(),
                live: live.contains(j.node.0),
                transform: Trs::identity(),
            },
        };
        out.push(line);
        i += 1;
    }
    assert(Seq::new(out@.len(), |i: int| out@[i]@) =~= joint_lines(
        forest(nodes@),
        live@.dom(),
        joints@,
    ));
    out
}

fn find_group(groups: &Vec<SkinGroup>, key: u128) -> (r: Option<usize>)
    ensures
        match r {
            Some(i) => i < groups@.len() && first(group_views(groups@), has_group_key(key)) == i,
            None => first(group_views(groups@), has_group_key(key)) == groups@.len(),
        },
{
    let ghost views = group_views(groups@);
    let mut i: usize = 0;
    while i < groups.len()
        invariant
            i <= groups@.len(),
            views == group_views(groups@),
            forall|j: int| 0 <= j < i ==> !has_group_key(key)(#[trigger] views[j]),
        decreases groups@.len() - i,
    {
        if groups[i].key == key {
            proof {
                assert(views[i as int].key == key);
                lemma_first_is(views, has_group_key(key), i as int);
            }
            return Some(i);
        }
        i += 1;
    }
    proof {
        lemma_first_is(views, has_group_key(key), i as int);
    }
    None
}

fn group_one(groups: &mut Vec<SkinGroup>, nodes: &Vec<Node>, live: &Table<bool>, id: NodeId)
    ensures
        group_views(final(groups)@) == grouped(
            group_views(old(groups)@),
            forest(nodes@),
            live@.dom(),
            id,
        ),
{
    let ghost before = group_views(groups@);
    let n = match find_by_id(nodes, id) {
        Some(n) => n,
        None => {
            return ;
        },
    };
    proof {
        lemma_model(*n);
    }
    match &n.data.kind {
        NodeKind::SkinnedMesh { skin, .. } => {
            let key: u128 = if skin.joints.len() > 0 {
                skin.joints.at(0).node.0
            } else {
                skin.source.0
            };
            let mesh = SkinMesh {
                node: id,
                name: n.data.name.clone(),
                primitive_index: skin.primitive_index,
            };
            let ghost line = (id, n.data.name@, skin.primitive_index);
            match find_group(groups, key) {
                Some(i) => {
                    let ghost g = groups@[i as int];
                    groups[i].meshes.push(mesh);
                    proof {
                        let now = groups@[i as int];
                        assert(now@.meshes =~= g@.meshes.push(line));
                        assert(now@.joints =~= g@.joints);
                        assert(group_views(groups@) =~= before.update(
                            i as int,
                            SkinGroupView { meshes: g@.meshes.push(line), ..g@ },
                        ));
                    }
                },
                None => {
                    let mut meshes: Vec<SkinMesh> = Vec::new();
                    meshes.push(mesh);
                    let joints = list_joints(nodes, live, &skin.joints);
                    let g = SkinGroup { key, source: skin.source, meshes, joints };
                    proof {
                        assert(g@.meshes =~= seq![line]);
                    }
                    groups.push(g);
                    assert(group_views(groups@) =~= before.push(g@));
                },
            }
        },
        _ => {},
    }
}

/// The skins of nodes, each with the meshes that share it; of all nodes where none
/// is named. `live` has the bones that the renderer follows.
pub fn skin_data(nodes: &Vec<Node>, live: &Table<bool>, requested: &List<NodeId>) -> (r: Vec<SkinGroup>)
    ensures
        group_views(r@) == skin_groups(
            forest(nodes@),
            live@.dom(),
            asked_nodes(forest(nodes@), requested@),
        ),
{
    let row = resolve_node_ids(nodes, requested);
    let mut out: Vec<SkinGroup> = Vec::new();
    let mut i: usize = 0;
    assert(group_views(out@) =~= skin_groups(forest(nodes@), live@.dom(), row@.take(0)));
    while i < row.len()
        invariant
            i <= row@.len(),
            group_views(out@) == skin_groups(forest(nodes@), live@.dom(), row@.take(i as int)),
        decreases row@.len() - i,
    {
        group_one(&mut out, nodes, live, row[i]);
        i += 1;
        assert(row@.take(i as int).drop_last() =~= row@.take(i - 1));
    }
    assert(row@.take(i as int) =~= row@);
    out
}

/// A skin is told once, however many meshes share it.
pub proof fn law_skin_is_told_once(f: Seq<Tree>, live: Set<u128>, row: Seq<NodeId>)
    ensures
        forall|i: int, j: int|
            0 <= i < j < skin_groups(f, live, row).len() ==> (#[trigger] skin_groups(
                f,
                live,
                row,
            )[i]).key != (#[trigger] skin_groups(f, live, row)[j]).key,
    decreases row.len(),
{
    if row.len() > 0 {
        law_skin_is_told_once(f, live, row.drop_last());
        let was = skin_groups(f, live, row.drop_last());
        let now = skin_groups(f, live, row);
        match find(f, row.last()) {
            Some(t) => match t.data.kind {
                NodeKind::SkinnedMesh { skin, .. } => {
                    let key = group_key(skin.joints@, skin.source);
                    crate::find::lemma_first(was, has_group_key(key));
                    let k = first(was, has_group_key(key));
                    assert forall|i: int, j: int| 0 <= i < j < now.len() implies (
                    #[trigger] now[i]).key != (#[trigger] now[j]).key by {
                        if k == was.len() {
                            if j < was.len() {
                                assert(was[i].key != was[j].key);
                            } else {
                                assert(!has_group_key(key)(was[i]));
                            }
                        } else {
                            assert(was[i].key != was[j].key);
                        }
                    }
                },
                _ => {},
            },
            None => {},
        }
    }
}

/// The weights of some vertices of a skin.
pub struct SkinWeights {
    pub vertex_count: usize,
    pub set_count: usize,
    pub weights: Vec<SkinWeightEntry>,
}

/// The weights of those vertices of a row that a skin has.
pub open spec fn weights_of(s: SkinView, row: Seq<u32>) -> Seq<SkinWeightEntry>
    decreases row.len(),
{
    if row.len() == 0 {
        seq![]
    } else {
        let front = weights_of(s, row.drop_last());
        if vertex_within(s, row.last()) {
            front.push(entry_at(s, row.last()))
        } else {
            front
        }
    }
}

/// The vertices that are asked about: those named, or all of them.
pub open spec fn asked_vertices(s: SkinView, indices: Seq<u32>) -> Seq<u32> {
    if indices.len() > 0 {
        indices
    } else {
        crate::mesh_query::counting(vertex_count(s.sets, s.bytes.len()))
    }
}

fn list_weights(s: &SkinStream, row: &List<u32>) -> (r: Vec<SkinWeightEntry>)
    ensures
        r@ == weights_of(s@, row@),
{
    let mut out: Vec<SkinWeightEntry> = Vec::new();
    let mut i: usize = 0;
    while i < row.len()
        invariant
            i <= row@.len(),
            out@ == weights_of(s@, row@.take(i as int)),
        decreases row@.len() - i,
    {
        if let Some(e) = s.entry(*row.at(i)) {
            out.push(e);
        }
        i += 1;
        assert(row@.take(i as int).drop_last() =~= row@.take(i - 1));
    }
    assert(row@.take(i as int) =~= row@);
    out
}

/// The weights of vertices of a skinned node; of all of them where none is named.
/// A vertex that the skin lacks is passed over.
pub fn skin_weights(skins: &Table<SkinStream>, node: NodeId, indices: List<u32>) -> (r: Result<
    SkinWeights,
    QueryError,
>)
    ensures
        match r {
            Ok(w) => {
                let s = skins@[node.0]@;
                &&& skins@.contains_key(node.0)
                &&& w.vertex_count == vertex_count(s.sets, s.bytes.len())
                &&& w.set_count == s.sets
                &&& w.weights@ == weights_of(s, asked_vertices(s, indices@))
            },
            Err(e) => !skins@.contains_key(node.0) && e == QueryError::NoSkin(node),
        },
{
    match skins.get(node.0) {
        Some(s) => {
            let count: usize = s.vertices();
            let row = if indices.is_empty() {
                List::from_vec(crate::mesh_query::count_up(count))
            } else {
                indices
            };
            Ok(SkinWeights { vertex_count: count, set_count: s.sets, weights: list_weights(s, &row) })
        },
        None => Err(QueryError::NoSkin(node)),
    }
}

/// A track of a clip.
pub fn track_data(clips: &Vec<Clip>, clip: AssetId, track: usize) -> (r: Result<Track, QueryError>)
    ensures
        match r {
            Ok(t) => {
                let i = clip_at(clip_shapes(clips@), clip);
                &&& 0 <= i < clips@.len()
                &&& track < clips@[i].tracks@.len()
                &&& t == clips@[i].tracks@[track as int]
            },
            Err(e) => {
                let i = clip_at(clip_shapes(clips@), clip);
                &&& e == (QueryError::NoTrack { clip, track })
                &&& i == clips@.len() || (0 <= i < clips@.len() && track >= clips@[i].tracks@.len())
            },
        },
{
    match find_track(clips, clip, track) {
        Some(i) => Ok(clips[i].tracks.at(track).same()),
        None => Err(QueryError::NoTrack { clip, track }),
    }
}

/// What the viewport shows.
#[derive(Clone, Copy, PartialEq, Eq, Structural, Debug)]
pub struct ViewOptions {
    pub grid: bool,
    pub gizmos: bool,
    pub light_gizmos: bool,
    pub skeleton_viz: bool,
    pub follow_agent: bool,
    pub activity_overlay: bool,
    pub mcp_notifications: bool,
    pub msaa: bool,
    pub smaa: bool,
}

/// What the viewport shows.
pub open spec fn options_of(s: SessionView) -> ViewOptions {
    ViewOptions {
        grid: s.settings.grid,
        gizmos: s.settings.gizmo,
        light_gizmos: s.settings.light_gizmos,
        skeleton_viz: s.settings.skeleton_viz,
        follow_agent: s.follow_agent,
        activity_overlay: s.activity_overlay,
        mcp_notifications: s.mcp_notifications,
        msaa: s.settings.msaa,
        smaa: s.settings.smaa,
    }
}

/// What the viewport shows.
pub fn view_options(s: &Session) -> (r: ViewOptions)
    ensures
        r == options_of(s@),
{
    ViewOptions {
        grid: s.settings.grid,
        gizmos: s.settings.gizmo,
        light_gizmos: s.settings.light_gizmos,
        skeleton_viz: s.settings.skeleton_viz,
        follow_agent: s.follow_agent,
        activity_overlay: s.activity_overlay,
        mcp_notifications: s.mcp_notifications,
        msaa: s.settings.msaa,
        smaa: s.settings.smaa,
    }
}

} // verus!
