//! The nodes of an imported model: each node of the file becomes a node of the
//! scene, and one whose meshes have different materials becomes a group with a
//! node for each mesh.
use crate::asset_template::{AssetTemplateNode, Primitive};
use crate::assets::MeshData;
use crate::custom_material::{find_material, material_at, CustomMaterial};
use crate::find::{first, lemma_first_is};
use crate::ids::{AssetId, NodeId, VariantId};
use crate::list::{List, Same};
use crate::material::MaterialShading;
use crate::node::{LodSettings, NodeKind, ShadowFlags, SkinJoint, SkinnedMeshRef};
use crate::palette::{MaterialDef, MaterialInstance, MaterialVariant, Palette};
use crate::scene_edit::is_plain_node;
use crate::table::Table;
use crate::text::{decimal, decimal_text, joined, joined3};
use crate::tree::{forest, lemma_model, Node, NodeData, Tree};
use crate::values::{Trs, Vec4};
use vstd::prelude::*;

verus! {

/// How many ids there are.
pub open spec fn id_space() -> nat {
    0x1_0000_0000_0000_0000_0000_0000_0000_0000nat
}

/// The id `k` places after another.
pub open spec fn after(base: u128, k: nat) -> u128 {
    ((base + k) % (id_space() as int)) as u128
}

/// Steps after one another add up.
pub proof fn lemma_after(base: u128, i: nat, j: nat)
    ensures
        after(after(base, i), j) == after(base, i + j),
        after(base, 0) == base,
{
    vstd::arithmetic::div_mod::lemma_add_mod_noop(base + i, j as int, id_space() as int);
    vstd::arithmetic::div_mod::lemma_small_mod(base as nat, id_space());
    vstd::arithmetic::div_mod::lemma_mod_bound(base + i, id_space() as int);
    vstd::arithmetic::div_mod::lemma_small_mod(((base + i) % (id_space() as int)) as nat, id_space());
    vstd::arithmetic::div_mod::lemma_add_mod_noop(
        (base + i) % (id_space() as int),
        j as int,
        id_space() as int,
    );
    vstd::arithmetic::div_mod::lemma_mod_twice(base + i, id_space() as int);
}

/// Ids at different places are different, as long as the places are fewer than
/// there are ids.
pub proof fn law_places_have_their_own_ids(base: u128, i: nat, j: nat)
    requires
        i < id_space(),
        j < id_space(),
        after(base, i) == after(base, j),
    ensures
        i == j,
{
    let n = id_space() as int;
    let x = (base + i) % n;
    let y = (base + j) % n;
    assert(0 <= x < n && 0 <= y < n);
    assert(x == y);
    assert(base + i == n * ((base + i) / n) + x) by {
        vstd::arithmetic::div_mod::lemma_fundamental_div_mod(base + i, n);
    }
    assert(base + j == n * ((base + j) / n) + y) by {
        vstd::arithmetic::div_mod::lemma_fundamental_div_mod(base + j, n);
    }
    let p = (base + i) / n;
    let q = (base + j) / n;
    assert(i - j == n * p - n * q);
    assert(p == q) by (nonlinear_arith)
        requires
            i - j == n * p - n * q,
            0 <= i < n,
            0 <= j < n,
    ;
}

/// The id some places after another.
pub fn id_after(base: u128, k: u128) -> (r: u128)
    ensures
        r == after(base, k as nat),
{
    base.wrapping_add(k)
}

/// The geometry of a node of the file, whole or of one of its meshes.
pub struct NodeMesh {
    pub node_index: u32,
    pub primitive: Option<u32>,
    pub mesh: MeshData,
    pub tangents: Option<List<Vec4>>,
}

/// What the nodes of an import refer to.
pub struct ImportContext {
    /// The asset of the file.
    pub source: AssetId,
    /// The library material for each material of the file.
    pub mat_ids: Vec<AssetId>,
    /// The library material for meshes that have none in the file.
    pub default_mat: Option<AssetId>,
    pub meshes: Vec<NodeMesh>,
    /// The index in the rig for each index of the file.
    pub rig: Table<u32>,
    pub joints: List<SkinJoint>,
}

/// Whether geometry is that of a node, whole or of one mesh.
pub open spec fn is_geometry(index: u32, primitive: Option<u32>) -> spec_fn(NodeMesh) -> bool {
    |m: NodeMesh| m.node_index == index && m.primitive == primitive
}

/// The geometry of a node, where there is any.
pub open spec fn geometry(ms: Seq<NodeMesh>, index: u32, primitive: Option<u32>) -> Option<
    NodeMesh,
> {
    let i = first(ms, is_geometry(index, primitive));
    if 0 <= i < ms.len() {
        Some(ms[i])
    } else {
        None
    }
}

fn find_geometry(ms: &Vec<NodeMesh>, index: u32, primitive: Option<u32>) -> (r: Option<&NodeMesh>)
    ensures
        match r {
            Some(m) => geometry(ms@, index, primitive) == Some(*m),
            None => geometry(ms@, index, primitive) is None,
        },
{
    let mut i: usize = 0;
    while i < ms.len()
        invariant
            i <= ms@.len(),
            forall|j: int| 0 <= j < i ==> !is_geometry(index, primitive)(#[trigger] ms@[j]),
        decreases ms@.len() - i,
    {
        if ms[i].node_index == index && ms[i].primitive == primitive {
            proof {
                lemma_first_is(ms@, is_geometry(index, primitive), i as int);
            }
            return Some(&ms[i]);
        }
        i += 1;
    }
    proof {
        lemma_first_is(ms@, is_geometry(index, primitive), i as int);
    }
    None
}

/// The library material of a mesh: that of its material in the file, or the
/// default where it has none there.
pub open spec fn chosen(ctx: ImportContext, material: Option<usize>) -> Option<AssetId> {
    match material {
        Some(i) => if i < ctx.mat_ids@.len() {
            Some(ctx.mat_ids@[i as int])
        } else {
            None
        },
        None => ctx.default_mat,
    }
}

fn choose_material(ctx: &ImportContext, material: Option<usize>) -> (r: Option<AssetId>)
    ensures
        r == chosen(*ctx, material),
{
    match material {
        Some(i) => if i < ctx.mat_ids.len() {
            Some(ctx.mat_ids[i])
        } else {
            None
        },
        None => ctx.default_mat,
    }
}

/// The name of a library material, or what stands for it.
pub open spec fn material_name(ms: Seq<CustomMaterial>, id: AssetId, otherwise: Seq<char>) -> Seq<
    char,
> {
    let i = material_at(ms, id);
    if 0 <= i < ms.len() {
        ms[i].name@
    } else {
        otherwise
    }
}

fn name_of_material(ms: &Vec<CustomMaterial>, id: AssetId, otherwise: &str) -> (r: String)
    ensures
        r@ == material_name(ms@, id, otherwise@),
{
    match find_material(ms, id) {
        Some(i) => ms[i].name.clone(),
        None => otherwise.to_owned(),
    }
}

/// Whether an instance is a fresh one of a library material.
pub open spec fn is_import_instance(
    inst: MaterialInstance,
    ms: Seq<CustomMaterial>,
    id: AssetId,
) -> bool {
    let i = material_at(ms, id);
    &&& inst.asset == id
    &&& inst.uniform_overrides@ == Map::<Seq<char>, crate::custom_material::UniformValue>::empty()
    &&& inst.texture_overrides@ == Map::<Seq<char>, crate::material::TextureRef>::empty()
    &&& inst.buffer_overrides@ == Map::<Seq<char>, AssetId>::empty()
    &&& if 0 <= i < ms.len() && ms[i].builtin is Some {
        inst.inline == ms[i].builtin->0
    } else {
        inst.inline.is_plain(MaterialShading::Pbr) && inst.inline.label@.len() == 0
    }
}

/// Whether a palette is that of an imported mesh: one entry, named like the
/// material and selected, or none where the mesh has no material.
pub open spec fn is_import_palette(
    p: Palette,
    ms: Seq<CustomMaterial>,
    material: Option<AssetId>,
    id: u128,
) -> bool {
    match material {
        None => p.variants@.len() == 0 && p.selected is None,
        Some(asset) => {
            &&& p.variants@.len() == 1
            &&& p.selected == Some(VariantId(id))
            &&& p.variants@[0].id == VariantId(id)
            &&& p.variants@[0].name@ == material_name(ms, asset, "Material"@)
            &&& is_import_instance(p.variants@[0].instance, ms, asset)
        },
    }
}

fn palette_from_import(ms: &Vec<CustomMaterial>, material: Option<AssetId>, id: u128) -> (p: Palette)
    ensures
        is_import_palette(p, ms@, material, id),
{
    match material {
        None => Palette::empty(),
        Some(asset) => {
            let inline = match find_material(ms, asset) {
                Some(i) => match &ms[i].builtin {
                    Some(d) => d.same(),
                    None => MaterialDef::plain(String::new(), MaterialShading::Pbr),
                },
                None => MaterialDef::plain(String::new(), MaterialShading::Pbr),
            };
            let v = MaterialVariant {
                id: VariantId(id),
                name: name_of_material(ms, asset, "Material"),
                instance: MaterialInstance::fresh(asset, inline),
            };
            let mut variants: Vec<MaterialVariant> = Vec::new();
            variants.push(v);
            Palette { variants: List::from_vec(variants), selected: Some(VariantId(id)) }
        },
    }
}

/// Whether bones or morph targets deform any mesh of a node.
pub open spec fn deforms(row: Seq<Primitive>) -> bool {
    exists|i: int| 0 <= i < row.len() && ((#[trigger] row[i]).skinned || row[i].morphs)
}

/// Whether all meshes of a node have the same material.
pub open spec fn one_material(row: Seq<Primitive>) -> bool {
    forall|i: int|
        0 < i < row.len() ==> (#[trigger] row[i]).material_index == row[0].material_index
}

fn is_deformed(row: &List<Primitive>) -> (r: bool)
    ensures
        r == deforms(row@),
{
    let mut i: usize = 0;
    while i < row.len()
        invariant
            i <= row@.len(),
            forall|j: int| 0 <= j < i ==> !((#[trigger] row@[j]).skinned || row@[j].morphs),
        decreases row@.len() - i,
    {
        if row.at(i).skinned || row.at(i).morphs {
            return true;
        }
        i += 1;
    }
    false
}

fn has_one_material(row: &List<Primitive>) -> (r: bool)
    ensures
        r == one_material(row@),
{
    let mut i: usize = 1;
    while i < row.len()
        invariant
            1 <= i,
            row@.len() > 0 ==> i <= row@.len(),
            forall|j: int|
                0 < j < i && j < row@.len() ==> (#[trigger] row@[j]).material_index
                    == row@[0].material_index,
        decreases row@.len() - i,
    {
        if row.at(i).material_index != row.at(0).material_index {
            return false;
        }
        i += 1;
    }
    true
}

/// What a node of the file becomes.
#[derive(Clone, Copy, PartialEq, Eq, Structural, Debug)]
pub enum Shape {
    Light,
    Group,
    /// One mesh.
    Whole { skinned: bool },
    /// A group with a node for each mesh.
    Split { skinned: bool },
}

/// What a node of the file becomes.
pub open spec fn shape_of(t: AssetTemplateNode) -> Shape {
    if t.light is Some {
        Shape::Light
    } else if t.primitives@.len() == 0 {
        Shape::Group
    } else if one_material(t.primitives@) {
        Shape::Whole { skinned: deforms(t.primitives@) }
    } else {
        Shape::Split { skinned: deforms(t.primitives@) }
    }
}

fn find_shape(t: &AssetTemplateNode) -> (r: Shape)
    ensures
        r == shape_of(*t),
{
    if t.light.is_some() {
        Shape::Light
    } else if t.primitives.is_empty() {
        Shape::Group
    } else if has_one_material(&t.primitives) {
        Shape::Whole { skinned: is_deformed(&t.primitives) }
    } else {
        Shape::Split { skinned: is_deformed(&t.primitives) }
    }
}

/// How many nodes a node of the file is split into.
pub open spec fn part_count(t: AssetTemplateNode) -> nat {
    if shape_of(t) is Split {
        t.primitives@.len()
    } else {
        0
    }
}

/// The id of a part of the node with an id.
pub open spec fn part_id(base: u128, i: nat) -> u128 {
    after(base, (i + 1) * 0x1_0000_0000_0000_0000)
}

/// The index of a node in the rig; without a rig, its index in the file.
pub open spec fn rig_index(ctx: ImportContext, index: u32) -> u32 {
    if ctx.rig@.contains_key(index as u128) {
        ctx.rig@[index as u128]
    } else {
        index
    }
}

/// Whether a kind is a mesh of the file with a palette: deformed, with a
/// reference to the rig, or with geometry of its own.
pub open spec fn is_mesh_kind(
    k: NodeKind,
    ctx: ImportContext,
    ms: Seq<CustomMaterial>,
    index: u32,
    primitive: Option<u32>,
    material: Option<usize>,
    skinned: bool,
    id: u128,
) -> bool {
    if skinned {
        k matches NodeKind::SkinnedMesh { skin, palette, shadow, lod } && {
            &&& skin.source == ctx.source
            &&& skin.node_index == index
            &&& skin.rig_node_index == rig_index(ctx, index)
            &&& skin.primitive_index == primitive
            &&& skin.joints == ctx.joints
            &&& is_import_palette(palette, ms, chosen(ctx, material), id)
            &&& shadow == ShadowFlags::standard()
            &&& lod == LodSettings::standard()
        }
    } else if geometry(ctx.meshes@, index, primitive) is Some {
        k matches NodeKind::Mesh { mesh, palette, shadow, lod } && {
            &&& mesh == AssetId(id)
            &&& is_import_palette(palette, ms, chosen(ctx, material), id)
            &&& shadow == ShadowFlags::standard()
            &&& lod == LodSettings::standard()
        }
    } else {
        k is Group
    }
}

/// Whether a kind is that of the node that a node of the file becomes.
pub open spec fn is_node_kind(
    k: NodeKind,
    t: AssetTemplateNode,
    ctx: ImportContext,
    ms: Seq<CustomMaterial>,
    id: u128,
) -> bool {
    match shape_of(t) {
        Shape::Light => k == NodeKind::Light(t.light->0),
        Shape::Group => k is Group,
        Shape::Split { .. } => k is Group,
        Shape::Whole { skinned } => is_mesh_kind(
            k,
            ctx,
            ms,
            t.gltf_node_index,
            None,
            t.primitives@[0].material_index,
            skinned,
            id,
        ),
    }
}

/// What a node is called: by its label, else by the name that is given for it,
/// else by its index.
pub open spec fn node_name(t: AssetTemplateNode, fallback: Option<Seq<char>>) -> Seq<char> {
    match t.label {
        Some(l) => l@,
        None => match fallback {
            Some(f) => f,
            None => "Node "@ + decimal(t.gltf_node_index as nat),
        },
    }
}

/// What a part of a node is called: like its material, or by its number.
pub open spec fn part_name(
    t: AssetTemplateNode,
    ctx: ImportContext,
    ms: Seq<CustomMaterial>,
    name: Seq<char>,
    i: nat,
) -> Seq<char> {
    let numbered = name + " \u{b7} part "@ + decimal(i);
    match chosen(ctx, t.primitives@[i as int].material_index) {
        Some(id) => material_name(ms, id, numbered),
        None => numbered,
    }
}

/// Whether a node is a part of what a node of the file is split into.
pub open spec fn is_part(
    n: Tree,
    t: AssetTemplateNode,
    ctx: ImportContext,
    ms: Seq<CustomMaterial>,
    base: u128,
    name: Seq<char>,
    i: nat,
) -> bool {
    &&& is_plain_node(
        n,
        NodeId(part_id(base, i)),
        part_name(t, ctx, ms, name, i),
        Trs::identity(),
    )
    &&& is_mesh_kind(
        n.data.kind,
        ctx,
        ms,
        t.gltf_node_index,
        Some(i as u32),
        t.primitives@[i as int].material_index,
        deforms(t.primitives@),
        part_id(base, i),
    )
}

/// How many nodes of the file a row has, with everything below.
pub open spec fn size(nodes: Seq<AssetTemplateNode>) -> nat
    decreases nodes,
{
    if nodes.len() == 0 {
        0
    } else {
        1 + size(nodes[0].children@) + size(nodes.drop_first())
    }
}

/// The id of the node that the row `nodes` reaches at `i`, where its first node
/// has the id `base`.
pub open spec fn row_id(nodes: Seq<AssetTemplateNode>, base: u128, i: int) -> u128 {
    after(base, size(nodes.take(i)))
}

/// Whether a tree is what a node of the file becomes, with the id given, and
/// what is below it what is below. The ids below follow in pre-order.
pub open spec fn mirrors(
    t: AssetTemplateNode,
    ctx: ImportContext,
    ms: Seq<CustomMaterial>,
    base: u128,
    fallback: Option<Seq<char>>,
    n: Tree,
) -> bool
    decreases t,
{
    let name = node_name(t, fallback);
    let parts = part_count(t);
    &&& n.id == NodeId(base)
    &&& n.data.name@ == name
    &&& n.data.transform == t.local
    &&& n.data.visible
    &&& !n.data.locked
    &&& !n.data.prefab
    &&& is_node_kind(n.data.kind, t, ctx, ms, base)
    &&& n.children.len() == parts + t.children@.len()
    &&& forall|i: int|
        0 <= i < parts ==> is_part(#[trigger] n.children[i], t, ctx, ms, base, name, i as nat)
    &&& forall|j: int|
        0 <= j < t.children@.len() ==> mirrors(
            #[trigger] t.children@[j],
            ctx,
            ms,
            row_id(t.children@, after(base, 1), j),
            None,
            n.children[parts + j],
        )
}

/// Geometry that a node takes for its own.
pub struct Capture {
    pub node: NodeId,
    pub label: String,
    pub mesh: MeshData,
    pub tangents: Option<List<Vec4>>,
}

/// Geometry that a node takes for its own, as a value.
#[verifier::ext_equal]
pub struct CaptureView {
    pub node: NodeId,
    pub label: Seq<char>,
    pub mesh: MeshData,
    pub tangents: Option<List<Vec4>>,
}

/// The captures as values.
pub open spec fn capture_views(row: Seq<Capture>) -> Seq<CaptureView> {
    Seq::new(
        row.len(),
        |i: int|
            CaptureView {
                node: row[i].node,
                label: row[i].label@,
                mesh: row[i].mesh,
                tangents: row[i].tangents,
            },
    )
}

/// The geometry that one mesh of the file brings, where it has any.
pub open spec fn captured(
    ctx: ImportContext,
    index: u32,
    primitive: Option<u32>,
    id: u128,
    label: Seq<char>,
) -> Seq<CaptureView> {
    match geometry(ctx.meshes@, index, primitive) {
        Some(m) => seq![CaptureView { node: NodeId(id), label, mesh: m.mesh, tangents: m.tangents }],
        None => seq![],
    }
}

/// The geometry that the first `k` parts of a node bring.
pub open spec fn part_captures(
    t: AssetTemplateNode,
    ctx: ImportContext,
    ms: Seq<CustomMaterial>,
    base: u128,
    name: Seq<char>,
    k: nat,
) -> Seq<CaptureView>
    decreases k,
{
    if k == 0 {
        seq![]
    } else {
        let i = (k - 1) as nat;
        part_captures(t, ctx, ms, base, name, i) + captured(
            ctx,
            t.gltf_node_index,
            Some(i as u32),
            part_id(base, i),
            part_name(t, ctx, ms, name, i),
        )
    }
}

/// The geometry that a node of the file brings by itself. What is deformed keeps
/// its geometry in the rig.
pub open spec fn own_captures(
    t: AssetTemplateNode,
    ctx: ImportContext,
    ms: Seq<CustomMaterial>,
    base: u128,
    name: Seq<char>,
) -> Seq<CaptureView> {
    match shape_of(t) {
        Shape::Whole { skinned: false } => captured(ctx, t.gltf_node_index, None, base, name),
        Shape::Split { skinned: false } => part_captures(
            t,
            ctx,
            ms,
            base,
            name,
            t.primitives@.len(),
        ),
        _ => seq![],
    }
}

/// The geometry that a row of nodes brings, in pre-order.
pub open spec fn row_captures(
    nodes: Seq<AssetTemplateNode>,
    ctx: ImportContext,
    ms: Seq<CustomMaterial>,
    base: u128,
    fallback: Option<Seq<char>>,
) -> Seq<CaptureView>
    decreases nodes,
{
    if nodes.len() == 0 {
        seq![]
    } else {
        let t = nodes[0];
        own_captures(t, ctx, ms, base, node_name(t, fallback)) + row_captures(
            t.children@,
            ctx,
            ms,
            after(base, 1),
            None,
        ) + row_captures(
            nodes.drop_first(),
            ctx,
            ms,
            after(base, 1 + size(t.children@)),
            fallback,
        )
    }
}

/// The rest geometry of a deformed mesh, by its place in the file.
pub struct BindPose {
    pub node_index: u32,
    pub primitive: Option<u32>,
    pub mesh: MeshData,
}

/// The rest geometry of one mesh, where the file has it.
pub open spec fn posed_mesh(ctx: ImportContext, index: u32, primitive: Option<u32>) -> Seq<BindPose> {
    match geometry(ctx.meshes@, index, primitive) {
        Some(m) => seq![BindPose { node_index: index, primitive, mesh: m.mesh }],
        None => seq![],
    }
}

/// The rest geometry of the first `k` parts of a node.
pub open spec fn part_poses(t: AssetTemplateNode, ctx: ImportContext, k: nat) -> Seq<BindPose>
    decreases k,
{
    if k == 0 {
        seq![]
    } else {
        part_poses(t, ctx, (k - 1) as nat) + posed_mesh(
            ctx,
            t.gltf_node_index,
            Some((k - 1) as u32),
        )
    }
}

/// The rest geometry of a node's deformed meshes.
pub open spec fn own_poses(t: AssetTemplateNode, ctx: ImportContext) -> Seq<BindPose> {
    match shape_of(t) {
        Shape::Whole { skinned: true } => posed_mesh(ctx, t.gltf_node_index, None),
        Shape::Split { skinned: true } => part_poses(t, ctx, t.primitives@.len()),
        _ => seq![],
    }
}

/// The rest geometry of the deformed meshes of a row, in pre-order.
pub open spec fn row_poses(nodes: Seq<AssetTemplateNode>, ctx: ImportContext) -> Seq<BindPose>
    decreases nodes,
{
    if nodes.len() == 0 {
        seq![]
    } else {
        own_poses(nodes[0], ctx) + row_poses(nodes[0].children@, ctx) + row_poses(
            nodes.drop_first(),
            ctx,
        )
    }
}

/// What building nodes brings besides the nodes.
pub struct Brought {
    pub captures: Vec<Capture>,
    pub poses: Vec<BindPose>,
}

fn capture(
    ctx: &ImportContext,
    index: u32,
    primitive: Option<u32>,
    id: u128,
    label: &str,
    out: &mut Vec<Capture>,
)
    ensures
        capture_views(final(out)@) == capture_views(old(out)@) + captured(
            *ctx,
            index,
            primitive,
            id,
            label@,
        ),
{
    let ghost before = capture_views(out@);
    if let Some(m) = find_geometry(&ctx.meshes, index, primitive) {
        out.push(
            Capture {
                node: NodeId(id),
                label: label.to_owned(),
                mesh: m.mesh.same(),
                tangents: m.tangents.clone(),
            },
        );
    }
    assert(capture_views(out@) =~= before + captured(*ctx, index, primitive, id, label@));
}

fn pose(ctx: &ImportContext, index: u32, primitive: Option<u32>, out: &mut Vec<BindPose>)
    ensures
        final(out)@ == old(out)@ + posed_mesh(*ctx, index, primitive),
{
    let ghost before = out@;
    if let Some(m) = find_geometry(&ctx.meshes, index, primitive) {
        out.push(BindPose { node_index: index, primitive, mesh: m.mesh.same() });
    }
    assert(out@ =~= before + posed_mesh(*ctx, index, primitive));
}

fn mesh_kind(
    ctx: &ImportContext,
    ms: &Vec<CustomMaterial>,
    index: u32,
    primitive: Option<u32>,
    material: Option<usize>,
    skinned: bool,
    id: u128,
) -> (k: NodeKind)
    ensures
        is_mesh_kind(k, *ctx, ms@, index, primitive, material, skinned, id),
{
    if skinned {
        let rig_node_index: u32 = match ctx.rig.get(index as u128) {
            Some(i) => *i,
            None => index,
        };
        NodeKind::SkinnedMesh {
            skin: SkinnedMeshRef {
                source: ctx.source,
                node_index: index,
                rig_node_index,
                primitive_index: primitive,
                joints: ctx.joints.clone(),
            },
            palette: palette_from_import(ms, choose_material(ctx, material), id),
            shadow: ShadowFlags::standard(),
            lod: LodSettings::standard(),
        }
    } else if find_geometry(&ctx.meshes, index, primitive).is_some() {
        NodeKind::Mesh {
            mesh: AssetId(id),
            palette: palette_from_import(ms, choose_material(ctx, material), id),
            shadow: ShadowFlags::standard(),
            lod: LodSettings::standard(),
        }
    } else {
        NodeKind::Group
    }
}

fn part_label(
    t: &AssetTemplateNode,
    ctx: &ImportContext,
    ms: &Vec<CustomMaterial>,
    name: &str,
    i: usize,
) -> (r: String)
    requires
        i < t.primitives@.len(),
    ensures
        r@ == part_name(*t, *ctx, ms@, name@, i as nat),
{
    let numbered = joined3(name, " \u{b7} part ", &decimal_text(i as u64));
    match choose_material(ctx, t.primitives.at(i).material_index) {
        Some(id) => name_of_material(ms, id, &numbered),
        None => numbered,
    }
}

fn make_part_id(base: u128, i: usize) -> (r: u128)
    requires
        i < usize::MAX,
    ensures
        r == part_id(base, i as nat),
{
    let k: u128 = (i as u128 + 1) * 0x1_0000_0000_0000_0000;
    id_after(base, k)
}

fn build_part(
    t: &AssetTemplateNode,
    ctx: &ImportContext,
    ms: &Vec<CustomMaterial>,
    base: u128,
    label: &str,
    skinned: bool,
    i: usize,
) -> (n: Node)
    requires
        i < t.primitives@.len(),
        skinned == deforms(t.primitives@),
    ensures
        forall|name: Seq<char>|
            label@ == #[trigger] part_name(*t, *ctx, ms@, name, i as nat) ==> is_part(
                n.model(),
                *t,
                *ctx,
                ms@,
                base,
                name,
                i as nat,
            ),
{
    let len: usize = t.primitives.len();
    assert(i < len);
    let id = make_part_id(base, i);
    let kind = mesh_kind(
        ctx,
        ms,
        t.gltf_node_index,
        Some(i as u32),
        t.primitives.at(i).material_index,
        skinned,
        id,
    );
    let n = Node {
        id: NodeId(id),
        data: NodeData {
            name: label.to_owned(),
            transform: Trs::identity(),
            kind,
            visible: true,
            locked: false,
            prefab: false,
        },
        children: Vec::new(),
    };
    proof {
        lemma_model(n);
    }
    n
}

fn build_parts(
    t: &AssetTemplateNode,
    ctx: &ImportContext,
    ms: &Vec<CustomMaterial>,
    base: u128,
    name: &str,
    skinned: bool,
    brought: &mut Brought,
) -> (parts: Vec<Node>)
    requires
        skinned == deforms(t.primitives@),
    ensures
        parts@.len() == t.primitives@.len(),
        forall|i: int|
            0 <= i < parts@.len() ==> is_part(
                (#[trigger] forest(parts@)[i]),
                *t,
                *ctx,
                ms@,
                base,
                name@,
                i as nat,
            ),
        capture_views(final(brought).captures@) == capture_views(old(brought).captures@) + if skinned {
            seq![]
        } else {
            part_captures(*t, *ctx, ms@, base, name@, t.primitives@.len())
        },
        final(brought).poses@ == old(brought).poses@ + if skinned {
            part_poses(*t, *ctx, t.primitives@.len())
        } else {
            seq![]
        },
{
    let ghost caps = capture_views(brought.captures@);
    let ghost poses = brought.poses@;
    let mut parts: Vec<Node> = Vec::new();
    let mut i: usize = 0;
    assert(capture_views(brought.captures@) =~= caps + part_captures(
        *t,
        *ctx,
        ms@,
        base,
        name@,
        0,
    ));
    assert(brought.poses@ =~= poses + part_poses(*t, *ctx, 0));
    assert(caps =~= caps + seq![]);
    assert(poses =~= poses + seq![]);
    while i < t.primitives.len()
        invariant
            i <= t.primitives@.len(),
            parts@.len() == i,
            skinned == deforms(t.primitives@),
            forall|j: int|
                0 <= j < parts@.len() ==> is_part(
                    (#[trigger] forest(parts@)[j]),
                    *t,
                    *ctx,
                    ms@,
                    base,
                    name@,
                    j as nat,
                ),
            capture_views(brought.captures@) == caps + if skinned {
                seq![]
            } else {
                part_captures(*t, *ctx, ms@, base, name@, i as nat)
            },
            brought.poses@ == poses + if skinned {
                part_poses(*t, *ctx, i as nat)
            } else {
                seq![]
            },
        decreases t.primitives@.len() - i,
    {
        let label = part_label(t, ctx, ms, name, i);
        if skinned {
            pose(ctx, t.gltf_node_index, Some(i as u32), &mut brought.poses);
            assert(brought.poses@ =~= poses + part_poses(*t, *ctx, i as nat + 1));
        } else {
            let len: usize = t.primitives.len();
            assert(i < len);
            let id = make_part_id(base, i);
            capture(ctx, t.gltf_node_index, Some(i as u32), id, &label, &mut brought.captures);
            assert(capture_views(brought.captures@) =~= caps + part_captures(
                *t,
                *ctx,
                ms@,
                base,
                name@,
                i as nat + 1,
            ));
        }
        let ghost was = parts@;
        let part = build_part(t, ctx, ms, base, &label, skinned, i);
        parts.push(part);
        assert forall|j: int| 0 <= j < parts@.len() implies is_part(
            (#[trigger] forest(parts@)[j]),
            *t,
            *ctx,
            ms@,
            base,
            name@,
            j as nat,
        ) by {
            if j < was.len() {
                assert(forest(was)[j] == forest(parts@)[j]);
            }
        }
        i += 1;
    }
    parts
}

proof fn lemma_size_step(nodes: Seq<AssetTemplateNode>, i: int)
    requires
        0 <= i < nodes.len(),
    ensures
        size(nodes.take(i + 1)) == size(nodes.take(i)) + 1 + size(nodes[i].children@),
    decreases nodes.len(),
{
    let more = nodes.take(i + 1);
    let some = nodes.take(i);
    if i == 0 {
        assert(more.drop_first() =~= seq![]);
        assert(some =~= seq![]);
        assert(more[0] == nodes[0]);
    } else {
        let rest = nodes.drop_first();
        lemma_size_step(rest, i - 1);
        assert(more.drop_first() =~= rest.take(i));
        assert(some.drop_first() =~= rest.take(i - 1));
        assert(more[0] == nodes[0]);
        assert(some[0] == nodes[0]);
        assert(rest[i - 1] == nodes[i]);
    }
}

fn name_node(t: &AssetTemplateNode, fallback: Option<&str>) -> (r: String)
    ensures
        r@ == node_name(
            *t,
            match fallback {
                Some(f) => Some(f@),
                None => None,
            },
        ),
{
    match &t.label {
        Some(l) => l.clone(),
        None => match fallback {
            Some(f) => f.to_owned(),
            None => joined("Node ", &decimal_text(t.gltf_node_index as u64)),
        },
    }
}

/// A fallback name as a value.
pub open spec fn fallback_of(fallback: Option<&str>) -> Option<Seq<char>> {
    match fallback {
        Some(f) => Some(f@),
        None => None,
    }
}

/// Builds what a node of the file becomes, with everything below it. Hands back
/// the id that comes after those that were used.
fn build_node(
    t: &AssetTemplateNode,
    ctx: &ImportContext,
    ms: &Vec<CustomMaterial>,
    base: u128,
    fallback: Option<&str>,
    brought: &mut Brought,
) -> (r: (Node, u128))
    ensures
        mirrors(*t, *ctx, ms@, base, fallback_of(fallback), r.0.model()),
        r.1 == after(base, 1 + size(t.children@)),
        capture_views(final(brought).captures@) == capture_views(old(brought).captures@)
            + own_captures(*t, *ctx, ms@, base, node_name(*t, fallback_of(fallback)))
            + row_captures(t.children@, *ctx, ms@, after(base, 1), None),
        final(brought).poses@ == old(brought).poses@ + own_poses(*t, *ctx) + row_poses(
            t.children@,
            *ctx,
        ),
    decreases t,
{
    let ghost caps = capture_views(brought.captures@);
    let ghost poses = brought.poses@;
    let name = name_node(t, fallback);
    let mut children: Vec<Node> = Vec::new();
    let kind = match find_shape(t) {
        Shape::Light => match t.light {
            Some(cfg) => NodeKind::Light(cfg),
            None => NodeKind::Group,
        },
        Shape::Group => NodeKind::Group,
        Shape::Split { skinned } => {
            children = build_parts(t, ctx, ms, base, &name, skinned, brought);
            NodeKind::Group
        },
        Shape::Whole { skinned } => {
            if skinned {
                pose(ctx, t.gltf_node_index, None, &mut brought.poses);
            } else {
                capture(ctx, t.gltf_node_index, None, base, &name, &mut brought.captures);
            }
            mesh_kind(
                ctx,
                ms,
                t.gltf_node_index,
                None,
                t.primitives.at(0).material_index,
                skinned,
                base,
            )
        },
    };
    assert(capture_views(brought.captures@) =~= caps + own_captures(*t, *ctx, ms@, base, name@));
    assert(brought.poses@ =~= poses + own_poses(*t, *ctx));
    let ghost parts = children@;
    let first_id = id_after(base, 1);
    assert(decreases_to!(*t => t.children@));
    let (below, next) = build_row(&t.children, ctx, ms, first_id, None, brought);
    let ghost rest = below@;
    let mut more = below;
    children.append(&mut more);
    let n = Node {
        id: NodeId(base),
        data: NodeData {
            name,
            transform: t.local,
            kind,
            visible: true,
            locked: false,
            prefab: false,
        },
        children,
    };
    proof {
        lemma_model(n);
        lemma_after(base, 1, size(t.children@));
        let m = n.model();
        assert(m.children =~= forest(parts) + forest(rest));
        assert forall|i: int| 0 <= i < part_count(*t) implies is_part(
            #[trigger] m.children[i],
            *t,
            *ctx,
            ms@,
            base,
            name@,
            i as nat,
        ) by {
            assert(m.children[i] == forest(parts)[i]);
        }
        assert forall|j: int| 0 <= j < t.children@.len() implies mirrors(
            #[trigger] t.children@[j],
            *ctx,
            ms@,
            row_id(t.children@, after(base, 1), j),
            None,
            m.children[part_count(*t) + j],
        ) by {
            assert(m.children[part_count(*t) + j] == forest(rest)[j]);
        }
    }
    (n, next)
}

/// Builds what a row of nodes of the file becomes.
fn build_row(
    nodes: &Vec<AssetTemplateNode>,
    ctx: &ImportContext,
    ms: &Vec<CustomMaterial>,
    base: u128,
    fallback: Option<&str>,
    brought: &mut Brought,
) -> (r: (Vec<Node>, u128))
    ensures
        r.0@.len() == nodes@.len(),
        forall|i: int|
            0 <= i < nodes@.len() ==> mirrors(
                #[trigger] nodes@[i],
                *ctx,
                ms@,
                row_id(nodes@, base, i),
                fallback_of(fallback),
                forest(r.0@)[i],
            ),
        r.1 == after(base, size(nodes@)),
        capture_views(final(brought).captures@) == capture_views(old(brought).captures@)
            + row_captures(nodes@, *ctx, ms@, base, fallback_of(fallback)),
        final(brought).poses@ == old(brought).poses@ + row_poses(nodes@, *ctx),
    decreases nodes@,
{
    let ghost caps = capture_views(brought.captures@);
    let ghost poses = brought.poses@;
    let ghost fb = fallback_of(fallback);
    let mut out: Vec<Node> = Vec::new();
    let mut next: u128 = base;
    let mut i: usize = 0;
    proof {
        lemma_after(base, 0, 0);
        assert(nodes@.take(0) =~= seq![]);
        assert(nodes@.skip(0) =~= nodes@);
    }
    while i < nodes.len()
        invariant
            i <= nodes@.len(),
            out@.len() == i,
            fb == fallback_of(fallback),
            next == row_id(nodes@, base, i as int),
            forall|j: int|
                0 <= j < i ==> mirrors(
                    #[trigger] nodes@[j],
                    *ctx,
                    ms@,
                    row_id(nodes@, base, j),
                    fb,
                    forest(out@)[j],
                ),
            caps + row_captures(nodes@, *ctx, ms@, base, fb) == capture_views(brought.captures@)
                + row_captures(nodes@.skip(i as int), *ctx, ms@, next, fb),
            poses + row_poses(nodes@, *ctx) == brought.poses@ + row_poses(
                nodes@.skip(i as int),
                *ctx,
            ),
        decreases nodes@.len() - i,
    {
        let ghost here = next;
        let ghost rest = nodes@.skip(i as int);
        let ghost had = capture_views(brought.captures@);
        let ghost had_poses = brought.poses@;
        let ghost was = out@;
        assert(rest[0] == nodes@[i as int]);
        assert(rest.drop_first() =~= nodes@.skip(i + 1));
        assert(decreases_to!(nodes@ => nodes@[i as int]));
        let (n, after_it) = build_node(&nodes[i], ctx, ms, next, fallback, brought);
        out.push(n);
        next = after_it;
        proof {
            let t = nodes@[i as int];
            lemma_size_step(nodes@, i as int);
            lemma_after(base, size(nodes@.take(i as int)), 1 + size(t.children@));
            assert forall|j: int| 0 <= j < i + 1 implies mirrors(
                #[trigger] nodes@[j],
                *ctx,
                ms@,
                row_id(nodes@, base, j),
                fb,
                forest(out@)[j],
            ) by {
                if j < i {
                    assert(forest(was)[j] == forest(out@)[j]);
                }
            }
            assert(had + row_captures(rest, *ctx, ms@, here, fb) =~= capture_views(
                brought.captures@,
            ) + row_captures(nodes@.skip(i + 1), *ctx, ms@, next, fb));
            assert(had_poses + row_poses(rest, *ctx) =~= brought.poses@ + row_poses(
                nodes@.skip(i + 1),
                *ctx,
            ));
        }
        i += 1;
    }
    proof {
        assert(nodes@.take(i as int) =~= nodes@);
        assert(row_captures(nodes@.skip(i as int), *ctx, ms@, next, fb) =~= seq![]);
        assert(row_poses(nodes@.skip(i as int), *ctx) =~= seq![]);
        assert(capture_views(brought.captures@) =~= caps + row_captures(
            nodes@,
            *ctx,
            ms@,
            base,
            fb,
        ));
        assert(brought.poses@ =~= poses + row_poses(nodes@, *ctx));
    }
    (out, next)
}

/// Builds what the nodes of a file become: the nodes, the geometry that they
/// take for their own, and the rest geometry of what is deformed. `ms` is the
/// library, `base` the id of the first node; the others follow in pre-order.
/// A node at the top without a label takes the name given.
pub fn build_editor_subtree(
    nodes: &Vec<AssetTemplateNode>,
    ctx: &ImportContext,
    ms: &Vec<CustomMaterial>,
    base: u128,
    fallback: &str,
) -> (r: (Vec<Node>, Brought))
    ensures
        r.0@.len() == nodes@.len(),
        forall|i: int|
            0 <= i < nodes@.len() ==> mirrors(
                #[trigger] nodes@[i],
                *ctx,
                ms@,
                row_id(nodes@, base, i),
                Some(fallback@),
                forest(r.0@)[i],
            ),
        capture_views(r.1.captures@) == row_captures(nodes@, *ctx, ms@, base, Some(fallback@)),
        r.1.poses@ == row_poses(nodes@, *ctx),
{
    let mut brought = Brought { captures: Vec::new(), poses: Vec::new() };
    let (out, _) = build_row(nodes, ctx, ms, base, Some(fallback), &mut brought);
    assert(capture_views(brought.captures@) =~= row_captures(
        nodes@,
        *ctx,
        ms@,
        base,
        Some(fallback@),
    ));
    assert(brought.poses@ =~= row_poses(nodes@, *ctx));
    (out, brought)
}

/// The node of the scene for each index of the file; where an index comes twice,
/// the later node counts.
pub open spec fn node_ids(
    nodes: Seq<AssetTemplateNode>,
    base: u128,
    m: Map<u128, NodeId>,
) -> Map<u128, NodeId>
    decreases nodes,
{
    if nodes.len() == 0 {
        m
    } else {
        let t = nodes[0];
        let own = m.insert(t.gltf_node_index as u128, NodeId(base));
        let below = node_ids(t.children@, after(base, 1), own);
        node_ids(nodes.drop_first(), after(base, 1 + size(t.children@)), below)
    }
}

fn fill_node_map(nodes: &Vec<AssetTemplateNode>, base: u128, map: &mut Table<NodeId>) -> (next: u128)
    ensures
        final(map)@ == node_ids(nodes@, base, old(map)@),
        next == after(base, size(nodes@)),
    decreases nodes@,
{
    let ghost start = map@;
    let mut next: u128 = base;
    let mut i: usize = 0;
    proof {
        lemma_after(base, 0, 0);
        assert(nodes@.take(0) =~= seq![]);
        assert(nodes@.skip(0) =~= nodes@);
    }
    while i < nodes.len()
        invariant
            i <= nodes@.len(),
            next == row_id(nodes@, base, i as int),
            node_ids(nodes@, base, start) == node_ids(nodes@.skip(i as int), next, map@),
        decreases nodes@.len() - i,
    {
        let ghost rest = nodes@.skip(i as int);
        let ghost here = next;
        assert(rest[0] == nodes@[i as int]);
        assert(rest.drop_first() =~= nodes@.skip(i + 1));
        map.insert(nodes[i].gltf_node_index as u128, NodeId(next));
        assert(decreases_to!(nodes@ => nodes@[i as int].children@));
        let after_it = fill_node_map(&nodes[i].children, id_after(next, 1), map);
        next = after_it;
        proof {
            let t = nodes@[i as int];
            lemma_size_step(nodes@, i as int);
            lemma_after(here, 1, size(t.children@));
            lemma_after(base, size(nodes@.take(i as int)), 1 + size(t.children@));
        }
        i += 1;
    }
    assert(nodes@.take(i as int) =~= nodes@);
    next
}

/// The node of the scene for each index of the file.
pub fn map_nodes(nodes: &Vec<AssetTemplateNode>, base: u128) -> (map: Table<NodeId>)
    ensures
        map@ == node_ids(nodes@, base, Map::empty()),
{
    let mut map: Table<NodeId> = Table::new();
    let _ = fill_node_map(nodes, base, &mut map);
    map
}

} // verus!
