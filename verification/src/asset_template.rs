//! The template of an imported model: a snapshot of the nodes that its file
//! made in the renderer, from which the nodes of the scene are built.
use crate::ids::NodeId;
use crate::list::List;
use crate::node::{LightConfig, SkinJoint};
use crate::table::Table;
use crate::values::{Trs, Vec3, F32};
use vstd::prelude::*;

verus! {

/// A mesh of a node in the renderer: the keys it is known by there, the material
/// of the file that it has, and whether bones or morph targets deform it.
#[derive(Clone, Copy, PartialEq, Eq, Structural, Debug)]
pub struct Primitive {
    pub mesh_key: u64,
    pub material_key: u64,
    pub material_index: Option<usize>,
    pub skinned: bool,
    pub morphs: bool,
}

/// A node in the renderer, as the import made it.
pub struct SourceNode {
    pub key: u64,
    pub local: Trs,
    pub primitives: List<Primitive>,
    pub children: Vec<SourceNode>,
}

/// What the file says of the nodes, by transform key or by node index.
pub struct SnapshotLookups {
    pub node_index: Table<u32>,
    pub label: Table<String>,
    pub skin_joints: Table<bool>,
    pub lights: Table<LightConfig>,
    pub morph_names: Table<List<String>>,
}

/// A node of the file, with what the scene is built from.
pub struct AssetTemplateNode {
    /// The index of the node in the file.
    pub gltf_node_index: u32,
    /// The transform that a skin reads.
    pub baked_transform_key: u64,
    pub is_skin_joint: bool,
    pub label: Option<String>,
    pub local: Trs,
    pub primitives: List<Primitive>,
    pub morph_target_names: List<String>,
    pub light: Option<LightConfig>,
    pub children: Vec<AssetTemplateNode>,
}

/// The nodes of one import.
pub struct AssetTemplate {
    pub roots: Vec<AssetTemplateNode>,
}

/// How a light of the file shines.
#[derive(Clone, Copy, PartialEq, Eq, Structural, Debug)]
pub enum SourceLightKind {
    Directional,
    Point,
    Spot { inner_angle: F32, outer_angle: F32 },
}

/// A light of the file. Without a range it reaches any distance.
#[derive(Clone, Copy, PartialEq, Eq, Structural, Debug)]
pub struct SourceLight {
    pub kind: SourceLightKind,
    pub color: Vec3,
    pub intensity: F32,
    pub range: Option<F32>,
}

/// The light of a node, from a light of the file. A range of zero stands for any
/// distance.
#[verifier::allow_in_spec]
pub fn light_config_from_gltf(light: SourceLight) -> LightConfig
    returns
        (match light.kind {
            SourceLightKind::Directional => LightConfig::Directional {
                color: light.color,
                intensity: light.intensity,
            },
            SourceLightKind::Point => LightConfig::Point {
                color: light.color,
                intensity: light.intensity,
                range: match light.range {
                    Some(r) => r,
                    None => F32::zero(),
                },
            },
            SourceLightKind::Spot { inner_angle, outer_angle } => LightConfig::Spot {
                color: light.color,
                intensity: light.intensity,
                range: match light.range {
                    Some(r) => r,
                    None => F32::zero(),
                },
                inner_angle,
                outer_angle,
            },
        }),
{
    let range = match light.range {
        Some(r) => r,
        None => F32::zero(),
    };
    match light.kind {
        SourceLightKind::Directional => LightConfig::Directional {
            color: light.color,
            intensity: light.intensity,
        },
        SourceLightKind::Point => LightConfig::Point {
            color: light.color,
            intensity: light.intensity,
            range,
        },
        SourceLightKind::Spot { inner_angle, outer_angle } => LightConfig::Spot {
            color: light.color,
            intensity: light.intensity,
            range,
            inner_angle,
            outer_angle,
        },
    }
}

/// The index of a node in the file; one that the file does not list counts as
/// the first.
pub open spec fn index_of(lk: SnapshotLookups, key: u64) -> u32 {
    if lk.node_index@.contains_key(key as u128) {
        lk.node_index@[key as u128]
    } else {
        0
    }
}

/// Whether a template node is the snapshot of a node, and those below it are
/// those of what is below.
pub open spec fn snapped(n: SourceNode, lk: SnapshotLookups, t: AssetTemplateNode) -> bool
    decreases n,
{
    let index = index_of(lk, n.key);
    &&& t.gltf_node_index == index
    &&& t.baked_transform_key == n.key
    &&& t.is_skin_joint == lk.skin_joints@.contains_key(n.key as u128)
    &&& t.label == if lk.label@.contains_key(n.key as u128) {
        Some(lk.label@[n.key as u128])
    } else {
        None
    }
    &&& t.local == n.local
    &&& t.primitives == n.primitives
    &&& t.morph_target_names@ == if lk.morph_names@.contains_key(index as u128) {
        lk.morph_names@[index as u128]@
    } else {
        seq![]
    }
    &&& t.light == if lk.lights@.contains_key(index as u128) {
        Some(lk.lights@[index as u128])
    } else {
        None
    }
    &&& t.children@.len() == n.children@.len()
    &&& forall|i: int|
        0 <= i < n.children@.len() ==> snapped(#[trigger] n.children@[i], lk, t.children@[i])
}

fn snapshot(n: &SourceNode, lk: &SnapshotLookups) -> (t: AssetTemplateNode)
    ensures
        snapped(*n, *lk, t),
    decreases n,
{
    let key: u128 = n.key as u128;
    let index: u32 = match lk.node_index.get(key) {
        Some(i) => *i,
        None => 0,
    };
    let mut children: Vec<AssetTemplateNode> = Vec::new();
    let mut i: usize = 0;
    while i < n.children.len()
        invariant
            i <= n.children@.len(),
            children@.len() == i,
            forall|j: int|
                0 <= j < i ==> snapped(#[trigger] n.children@[j], *lk, children@[j]),
        decreases n.children@.len() - i,
    {
        assert(decreases_to!(*n => n.children@[i as int]));
        children.push(snapshot(&n.children[i], lk));
        i += 1;
    }
    AssetTemplateNode {
        gltf_node_index: index,
        baked_transform_key: n.key,
        is_skin_joint: lk.skin_joints.contains(key),
        label: match lk.label.get(key) {
            Some(s) => Some(s.clone()),
            None => None,
        },
        local: n.local,
        primitives: n.primitives.clone(),
        morph_target_names: match lk.morph_names.get(index as u128) {
            Some(l) => l.clone(),
            None => List::empty(),
        },
        light: match lk.lights.get(index as u128) {
            Some(l) => Some(*l),
            None => None,
        },
        children,
    }
}

/// The snapshot of the nodes at the top.
pub fn build_from_context(roots: &Vec<SourceNode>, lk: &SnapshotLookups) -> (t: AssetTemplate)
    ensures
        t.roots@.len() == roots@.len(),
        forall|i: int| 0 <= i < roots@.len() ==> snapped(#[trigger] roots@[i], *lk, t.roots@[i]),
{
    let mut out: Vec<AssetTemplateNode> = Vec::new();
    let mut i: usize = 0;
    while i < roots.len()
        invariant
            i <= roots@.len(),
            out@.len() == i,
            forall|j: int| 0 <= j < i ==> snapped(#[trigger] roots@[j], *lk, out@[j]),
        decreases roots@.len() - i,
    {
        out.push(snapshot(&roots[i], lk));
        i += 1;
    }
    AssetTemplate { roots: out }
}

/// The first node with an index, in pre-order.
pub open spec fn found(nodes: Seq<AssetTemplateNode>, index: u32) -> Option<AssetTemplateNode>
    decreases nodes,
{
    if nodes.len() == 0 {
        None
    } else if nodes[0].gltf_node_index == index {
        Some(nodes[0])
    } else {
        match found(nodes[0].children@, index) {
            Some(n) => Some(n),
            None => found(nodes.drop_first(), index),
        }
    }
}

fn search(nodes: &Vec<AssetTemplateNode>, index: u32) -> (r: Option<&AssetTemplateNode>)
    ensures
        match r {
            Some(n) => found(nodes@, index) == Some(*n),
            None => found(nodes@, index) is None,
        },
    decreases nodes@,
{
    let mut i: usize = 0;
    assert(nodes@.skip(0) =~= nodes@);
    while i < nodes.len()
        invariant
            i <= nodes@.len(),
            found(nodes@, index) == found(nodes@.skip(i as int), index),
        decreases nodes@.len() - i,
    {
        let ghost rest = nodes@.skip(i as int);
        assert(rest[0] == nodes@[i as int]);
        assert(rest.drop_first() =~= nodes@.skip(i + 1));
        if nodes[i].gltf_node_index == index {
            return Some(&nodes[i]);
        }
        assert(decreases_to!(nodes@ => nodes@[i as int].children@));
        match search(&nodes[i].children, index) {
            Some(n) => {
                return Some(n);
            },
            None => {},
        }
        i += 1;
    }
    None
}

impl AssetTemplate {
    /// The first node with an index of the file, in pre-order.
    pub fn find_by_node_index(&self, node_index: u32) -> (r: Option<&AssetTemplateNode>)
        ensures
            match r {
                Some(n) => found(self.roots@, node_index) == Some(*n),
                None => found(self.roots@, node_index) is None,
            },
    {
        search(&self.roots, node_index)
    }
}

/// The meshes of nodes, in pre-order.
pub open spec fn mesh_keys(nodes: Seq<AssetTemplateNode>) -> Seq<u64>
    decreases nodes,
{
    if nodes.len() == 0 {
        seq![]
    } else {
        keys_in(nodes[0].primitives@) + mesh_keys(nodes[0].children@) + mesh_keys(
            nodes.drop_first(),
        )
    }
}

/// The keys of a row of meshes.
pub open spec fn keys_in(row: Seq<Primitive>) -> Seq<u64> {
    Seq::new(row.len(), |i: int| row[i].mesh_key)
}

fn push_keys(row: &List<Primitive>, out: &mut Vec<u64>)
    ensures
        final(out)@ == old(out)@ + keys_in(row@),
{
    let ghost start = out@;
    let mut i: usize = 0;
    assert(keys_in(row@).take(0) =~= seq![]);
    while i < row.len()
        invariant
            i <= row@.len(),
            out@ == start + keys_in(row@).take(i as int),
        decreases row@.len() - i,
    {
        out.push(row.at(i).mesh_key);
        i += 1;
        assert(out@ =~= start + keys_in(row@).take(i as int));
    }
    assert(keys_in(row@).take(row@.len() as int) =~= keys_in(row@));
}

fn collect_keys(nodes: &Vec<AssetTemplateNode>, out: &mut Vec<u64>)
    ensures
        final(out)@ == old(out)@ + mesh_keys(nodes@),
    decreases nodes@,
{
    let ghost start = out@;
    let mut i: usize = 0;
    assert(nodes@.skip(0) =~= nodes@);
    while i < nodes.len()
        invariant
            i <= nodes@.len(),
            start + mesh_keys(nodes@) == out@ + mesh_keys(nodes@.skip(i as int)),
        decreases nodes@.len() - i,
    {
        let ghost before = out@;
        let ghost rest = nodes@.skip(i as int);
        assert(rest[0] == nodes@[i as int]);
        assert(rest.drop_first() =~= nodes@.skip(i + 1));
        push_keys(&nodes[i].primitives, out);
        assert(decreases_to!(nodes@ => nodes@[i as int].children@));
        collect_keys(&nodes[i].children, out);
        i += 1;
        assert(out@ + mesh_keys(nodes@.skip(i as int)) =~= before + mesh_keys(rest));
    }
    assert(mesh_keys(nodes@.skip(i as int)) =~= seq![]);
    assert(out@ =~= start + mesh_keys(nodes@));
}

/// Every mesh that the import made in the renderer: each is hidden, as the scene
/// has meshes of its own.
pub fn hide_template_meshes(template: &AssetTemplate) -> (r: Vec<u64>)
    ensures
        r@ == mesh_keys(template.roots@),
{
    let mut out: Vec<u64> = Vec::new();
    collect_keys(&template.roots, &mut out);
    assert(out@ =~= mesh_keys(template.roots@));
    out
}

/// Something that the renderer is to give up.
#[derive(Clone, Copy, PartialEq, Eq, Structural, Debug)]
pub enum Removal {
    /// A mesh with the material that it has by now.
    Mesh(u64),
    /// The material that the import gave a mesh.
    Material(u64),
    Transform(u64),
}

/// What goes with a row of meshes.
pub open spec fn mesh_removals(row: Seq<Primitive>) -> Seq<Removal>
    decreases row.len(),
{
    if row.len() == 0 {
        seq![]
    } else {
        mesh_removals(row.drop_last()).push(Removal::Mesh(row.last().mesh_key)).push(
            Removal::Material(row.last().material_key),
        )
    }
}

/// What goes with nodes, in pre-order: of each its meshes and their materials,
/// then its transform.
pub open spec fn removals(nodes: Seq<AssetTemplateNode>) -> Seq<Removal>
    decreases nodes,
{
    if nodes.len() == 0 {
        seq![]
    } else {
        mesh_removals(nodes[0].primitives@).push(Removal::Transform(nodes[0].baked_transform_key))
            + removals(nodes[0].children@) + removals(nodes.drop_first())
    }
}

fn push_removals(row: &List<Primitive>, out: &mut Vec<Removal>)
    ensures
        final(out)@ == old(out)@ + mesh_removals(row@),
{
    let ghost start = out@;
    let mut i: usize = 0;
    assert(out@ =~= start + mesh_removals(row@.take(0)));
    while i < row.len()
        invariant
            i <= row@.len(),
            out@ == start + mesh_removals(row@.take(i as int)),
        decreases row@.len() - i,
    {
        assert(row@.take(i + 1).drop_last() =~= row@.take(i as int));
        assert(row@.take(i + 1).last() == row@[i as int]);
        out.push(Removal::Mesh(row.at(i).mesh_key));
        out.push(Removal::Material(row.at(i).material_key));
        i += 1;
        assert(out@ =~= start + mesh_removals(row@.take(i as int)));
    }
    assert(row@.take(i as int) =~= row@);
}

fn collect_removals(nodes: &Vec<AssetTemplateNode>, out: &mut Vec<Removal>)
    ensures
        final(out)@ == old(out)@ + removals(nodes@),
    decreases nodes@,
{
    let ghost start = out@;
    let mut i: usize = 0;
    assert(nodes@.skip(0) =~= nodes@);
    while i < nodes.len()
        invariant
            i <= nodes@.len(),
            start + removals(nodes@) == out@ + removals(nodes@.skip(i as int)),
        decreases nodes@.len() - i,
    {
        let ghost before = out@;
        let ghost rest = nodes@.skip(i as int);
        assert(rest[0] == nodes@[i as int]);
        assert(rest.drop_first() =~= nodes@.skip(i + 1));
        push_removals(&nodes[i].primitives, out);
        out.push(Removal::Transform(nodes[i].baked_transform_key));
        assert(decreases_to!(nodes@ => nodes@[i as int].children@));
        collect_removals(&nodes[i].children, out);
        i += 1;
        assert(out@ + removals(nodes@.skip(i as int)) =~= before + removals(rest));
    }
    assert(removals(nodes@.skip(i as int)) =~= seq![]);
    assert(out@ =~= start + removals(nodes@));
}

/// Everything that the import made in the renderer, in the order in which it is
/// given up.
pub fn remove_template_meshes(template: &AssetTemplate) -> (r: Vec<Removal>)
    ensures
        r@ == removals(template.roots@),
{
    let mut out: Vec<Removal> = Vec::new();
    collect_removals(&template.roots, &mut out);
    assert(out@ =~= removals(template.roots@));
    out
}

/// Whether a mesh anywhere in a tree has no material of the file.
pub open spec fn lacks_material(n: AssetTemplateNode) -> bool
    decreases n,
{
    ||| exists|i: int| 0 <= i < n.primitives@.len() && (#[trigger] n.primitives@[i]).material_index is None
    ||| exists|i: int| 0 <= i < n.children@.len() && lacks_material(#[trigger] n.children@[i])
}

/// Whether a tree has a mesh without a material of the file.
pub fn template_needs_default_material(n: &AssetTemplateNode) -> (r: bool)
    ensures
        r == lacks_material(*n),
    decreases n,
{
    let mut i: usize = 0;
    while i < n.primitives.len()
        invariant
            i <= n.primitives@.len(),
            forall|j: int|
                0 <= j < i ==> (#[trigger] n.primitives@[j]).material_index is Some,
        decreases n.primitives@.len() - i,
    {
        if n.primitives.at(i).material_index.is_none() {
            return true;
        }
        i += 1;
    }
    i = 0;
    while i < n.children.len()
        invariant
            i <= n.children@.len(),
            forall|j: int|
                0 <= j < n.primitives@.len() ==> (#[trigger] n.primitives@[j]).material_index is Some,
            forall|j: int| 0 <= j < i ==> !lacks_material(#[trigger] n.children@[j]),
        decreases n.children@.len() - i,
    {
        assert(decreases_to!(*n => n.children@[i as int]));
        if template_needs_default_material(&n.children[i]) {
            return true;
        }
        i += 1;
    }
    false
}

/// The bones among nodes, in pre-order: each that has a node in the scene and an
/// index in the rig.
pub open spec fn skin_joints(
    nodes: Seq<AssetTemplateNode>,
    ids: Map<u128, NodeId>,
    rig: Map<u128, u32>,
) -> Seq<SkinJoint>
    decreases nodes,
{
    if nodes.len() == 0 {
        seq![]
    } else {
        own_joint(nodes[0], ids, rig) + skin_joints(nodes[0].children@, ids, rig) + skin_joints(
            nodes.drop_first(),
            ids,
            rig,
        )
    }
}

/// The bone that a node is, where it is one.
pub open spec fn own_joint(
    n: AssetTemplateNode,
    ids: Map<u128, NodeId>,
    rig: Map<u128, u32>,
) -> Seq<SkinJoint> {
    let k = n.gltf_node_index as u128;
    if n.is_skin_joint && ids.contains_key(k) && rig.contains_key(k) {
        seq![SkinJoint { node: ids[k], index: rig[k] }]
    } else {
        seq![]
    }
}

fn collect_joints(
    nodes: &Vec<AssetTemplateNode>,
    ids: &Table<NodeId>,
    rig: &Table<u32>,
    out: &mut Vec<SkinJoint>,
)
    ensures
        final(out)@ == old(out)@ + skin_joints(nodes@, ids@, rig@),
    decreases nodes@,
{
    let ghost start = out@;
    let mut i: usize = 0;
    assert(nodes@.skip(0) =~= nodes@);
    while i < nodes.len()
        invariant
            i <= nodes@.len(),
            start + skin_joints(nodes@, ids@, rig@) == out@ + skin_joints(
                nodes@.skip(i as int),
                ids@,
                rig@,
            ),
        decreases nodes@.len() - i,
    {
        let ghost before = out@;
        let ghost rest = nodes@.skip(i as int);
        assert(rest[0] == nodes@[i as int]);
        assert(rest.drop_first() =~= nodes@.skip(i + 1));
        let k: u128 = nodes[i].gltf_node_index as u128;
        if nodes[i].is_skin_joint {
            if let Some(node) = ids.get(k) {
                if let Some(index) = rig.get(k) {
                    out.push(SkinJoint { node: *node, index: *index });
                }
            }
        }
        assert(out@ =~= before + own_joint(nodes@[i as int], ids@, rig@));
        assert(decreases_to!(nodes@ => nodes@[i as int].children@));
        collect_joints(&nodes[i].children, ids, rig, out);
        i += 1;
        assert(out@ + skin_joints(nodes@.skip(i as int), ids@, rig@) =~= before + skin_joints(
            rest,
            ids@,
            rig@,
        ));
    }
    assert(skin_joints(nodes@.skip(i as int), ids@, rig@) =~= seq![]);
    assert(out@ =~= start + skin_joints(nodes@, ids@, rig@));
}

/// The bones of an import: `ids` has the node of the scene for each index of the
/// file, `rig` its index in the rig. A bone that lacks either is left out.
pub fn assemble_skin_joints(
    nodes: &Vec<AssetTemplateNode>,
    ids: &Table<NodeId>,
    rig: &Table<u32>,
) -> (r: Vec<SkinJoint>)
    ensures
        r@ == skin_joints(nodes@, ids@, rig@),
{
    let mut out: Vec<SkinJoint> = Vec::new();
    collect_joints(nodes, ids, rig, &mut out);
    assert(out@ =~= skin_joints(nodes@, ids@, rig@));
    out
}

} // verus!
