//! What holds of the nodes and the geometry of a model file: each node arrives where it
//! stands in the file, with its name, its light or its mesh, and its materials.
use crate::asset_template::{
    mesh_removals, own_joint, removals, skin_joints, snapped, AssetTemplateNode, Primitive,
    Removal, SnapshotLookups, SourceNode,
};
use crate::assets::{AssetEntry, AssetSource, CapturedSource, MeshBase, TextureDef};
use crate::custom_material::{material_at, CustomMaterial};
use crate::find::lemma_first;
use crate::ids::{AssetId, NodeId};
use crate::import_library::{
    is_default_material, is_imported_material, is_texture_entry, ExtractedMaterial, TextureRow,
};
use crate::import_scene::{
    captured, geometry, is_geometry, is_mesh_kind, is_part, mirrors, node_ids, own_captures,
    own_poses, row_captures, row_id, BindPose, CaptureView, ImportContext, NodeMesh,
};
use crate::model_import::{
    all_put, geometry_row, is_file_entry, is_mesh_entry, joint_of, joint_row, rest_recorded,
    JointKey,
};
use crate::node::NodeKind;
use crate::palette::{MaterialDef, Palette};
use crate::tree::{find, Tree};
use crate::values::{F32, Trs};
use vstd::prelude::*;

verus! {

/// A node of a file is taken as it is: its place, its meshes, its name, and whether it is
/// a bone; its light and the names of its morph targets by its index.
pub proof fn law_file_node_is_taken_as_it_is(
    n: SourceNode,
    lk: SnapshotLookups,
    t: AssetTemplateNode,
    i: int,
)
    requires
        snapped(n, lk, t),
    ensures
        t.baked_transform_key == n.key,
        t.local == n.local,
        t.primitives == n.primitives,
        t.is_skin_joint == lk.skin_joints@.contains_key(n.key as u128),
        lk.node_index@.contains_key(n.key as u128) ==> t.gltf_node_index
            == lk.node_index@[n.key as u128],
        lk.label@.contains_key(n.key as u128) ==> t.label == Some(lk.label@[n.key as u128]),
        !lk.label@.contains_key(n.key as u128) ==> t.label is None,
        ({
            let k = t.gltf_node_index as u128;
            &&& lk.lights@.contains_key(k) ==> t.light == Some(lk.lights@[k])
            &&& !lk.lights@.contains_key(k) ==> t.light is None
            &&& lk.morph_names@.contains_key(k) ==> t.morph_target_names@ == lk.morph_names@[k]@
            &&& !lk.morph_names@.contains_key(k) ==> t.morph_target_names@.len() == 0
        }),
        t.children@.len() == n.children@.len(),
        0 <= i < n.children@.len() ==> snapped(n.children@[i], lk, t.children@[i]),
{
}

/// Whether a mesh of a node deforms.
pub open spec fn moves(row: Seq<Primitive>) -> bool {
    exists|i: int| 0 <= i < row.len() && ((#[trigger] row[i]).skinned || row[i].morphs)
}

/// Whether all meshes of a node have one material.
pub open spec fn alike(row: Seq<Primitive>) -> bool {
    forall|i: int, j: int|
        0 <= i < row.len() && 0 <= j < row.len() ==> (#[trigger] row[i]).material_index == (
        #[trigger] row[j]).material_index
}

/// A node arrives where it stands in the file, under its name or that of the file,
/// visible and free; what is below it arrives below it, in order. A light stays a light,
/// a node without meshes is a group, and one whose meshes differ in material is a group
/// with a node for each of them.
pub proof fn law_node_arrives_where_it_stands(
    t: AssetTemplateNode,
    ctx: ImportContext,
    ms: Seq<CustomMaterial>,
    base: u128,
    fallback: Option<Seq<char>>,
    n: Tree,
    i: int,
)
    requires
        mirrors(t, ctx, ms, base, fallback, n),
    ensures
        n.id == NodeId(base),
        n.data.transform == t.local,
        n.data.visible && !n.data.locked && !n.data.prefab,
        t.label matches Some(l) ==> n.data.name@ == l@,
        t.label is None ==> (fallback matches Some(f) ==> n.data.name@ == f),
        t.light matches Some(l) ==> n.data.kind == NodeKind::Light(l) && n.children.len()
            == t.children@.len(),
        t.light is None && t.primitives@.len() == 0 ==> n.data.kind is Group && n.children.len()
            == t.children@.len(),
        t.light is None && t.primitives@.len() > 0 && alike(t.primitives@) ==> n.children.len()
            == t.children@.len() && is_mesh_kind(
            n.data.kind,
            ctx,
            ms,
            t.gltf_node_index,
            None,
            t.primitives@[0].material_index,
            moves(t.primitives@),
            base,
        ),
        t.light is None && t.primitives@.len() > 0 && !alike(t.primitives@) ==> {
            &&& n.data.kind is Group
            &&& n.children.len() == t.primitives@.len() + t.children@.len()
            &&& forall|k: int|
                0 <= k < t.primitives@.len() ==> (#[trigger] n.children[k]).data.transform
                    == Trs::identity() && n.children[k].children.len() == 0 && is_mesh_kind(
                    n.children[k].data.kind,
                    ctx,
                    ms,
                    t.gltf_node_index,
                    Some(k as u32),
                    t.primitives@[k].material_index,
                    moves(t.primitives@),
                    n.children[k].id.0,
                )
        },
        0 <= i < t.children@.len() ==> mirrors(
            t.children@[i],
            ctx,
            ms,
            row_id(t.children@, crate::import_scene::after(base, 1), i),
            None,
            n.children[n.children.len() - t.children@.len() + i],
        ),
{
    let row = t.primitives@;
    assert(alike(row) == crate::import_scene::one_material(row)) by {
        if crate::import_scene::one_material(row) {
            assert forall|i: int, j: int| 0 <= i < row.len() && 0 <= j < row.len() implies (
            #[trigger] row[i]).material_index == (#[trigger] row[j]).material_index by {
                assert(i > 0 ==> row[i].material_index == row[0].material_index);
                assert(j > 0 ==> row[j].material_index == row[0].material_index);
            }
        } else {
            let i = choose|i: int|
                0 < i < row.len() && (#[trigger] row[i]).material_index != row[0].material_index;
            assert(row[i].material_index != row[0].material_index);
        }
    }
    assert(moves(row) == crate::import_scene::deforms(row));
    if t.light is None && row.len() > 0 && !alike(row) {
        assert forall|k: int| 0 <= k < row.len() implies (#[trigger] n.children[k]).data.transform
            == Trs::identity() && n.children[k].children.len() == 0 && is_mesh_kind(
            n.children[k].data.kind,
            ctx,
            ms,
            t.gltf_node_index,
            Some(k as u32),
            row[k].material_index,
            moves(row),
            n.children[k].id.0,
        ) by {
            assert(is_part(
                n.children[k],
                t,
                ctx,
                ms,
                base,
                crate::import_scene::node_name(t, fallback),
                k as nat,
            ));
        }
    }
}

/// A mesh that deforms arrives as a skinned mesh of its file: by its index there and in
/// the rig, with all bones. One that does not arrives as a mesh of its own. Both render
/// with the material of the file.
pub proof fn law_mesh_arrives_with_its_material(
    k: NodeKind,
    ctx: ImportContext,
    ms: Seq<CustomMaterial>,
    index: u32,
    primitive: Option<u32>,
    material: Option<usize>,
    skinned: bool,
    id: u128,
)
    requires
        is_mesh_kind(k, ctx, ms, index, primitive, material, skinned, id),
    ensures
        skinned ==> (k matches NodeKind::SkinnedMesh { skin, palette, .. } && {
            &&& skin.source == ctx.source
            &&& skin.node_index == index
            &&& skin.primitive_index == primitive
            &&& skin.joints == ctx.joints
            &&& ctx.rig@.contains_key(index as u128) ==> skin.rig_node_index
                == ctx.rig@[index as u128]
            &&& renders_with_file_material(palette, ctx, ms, material)
        }),
        !skinned && geometry(ctx.meshes@, index, primitive) is Some ==> (k matches NodeKind::Mesh {
            mesh,
            palette,
            ..
        } && mesh == AssetId(id) && renders_with_file_material(palette, ctx, ms, material)),
        !skinned && geometry(ctx.meshes@, index, primitive) is None ==> k is Group,
{
}

/// Whether a palette has the material of the file, or the one for meshes without one,
/// chosen; and what that material is.
pub open spec fn renders_with_file_material(
    p: Palette,
    ctx: ImportContext,
    ms: Seq<CustomMaterial>,
    material: Option<usize>,
) -> bool {
    let asset = match material {
        Some(i) => if i < ctx.mat_ids@.len() {
            Some(ctx.mat_ids@[i as int])
        } else {
            None
        },
        None => ctx.default_mat,
    };
    match asset {
        None => p.variants@.len() == 0 && p.selected is None,
        Some(id) => {
            let i = material_at(ms, id);
            &&& p.variants@.len() == 1
            &&& p.selected == Some(p.variants@[0].id)
            &&& p.variants@[0].instance.asset == id
            &&& 0 <= i < ms.len() ==> p.variants@[0].name@ == ms[i].name@ && (
            ms[i].builtin matches Some(d) ==> p.variants@[0].instance.inline == d)
        },
    }
}

/// The geometry of a mesh that arrives is the one that the file has for it.
pub proof fn law_geometry_is_that_of_the_file(
    ctx: ImportContext,
    index: u32,
    primitive: Option<u32>,
    id: u128,
    label: Seq<char>,
)
    ensures
        ({
            let r = captured(ctx, index, primitive, id, label);
            &&& (r.len() == 1) == (geometry(ctx.meshes@, index, primitive) is Some)
            &&& r.len() <= 1
            &&& r.len() == 1 ==> r[0].node == NodeId(id) && r[0].label == label && exists|i: int|
                0 <= i < ctx.meshes@.len() && (#[trigger] ctx.meshes@[i]).node_index == index
                    && ctx.meshes@[i].primitive == primitive && r[0].mesh == ctx.meshes@[i].mesh
                    && r[0].tangents == ctx.meshes@[i].tangents
            &&& r.len() == 0 ==> forall|i: int|
                0 <= i < ctx.meshes@.len() ==> !((#[trigger] ctx.meshes@[i]).node_index == index
                    && ctx.meshes@[i].primitive == primitive)
        }),
{
    let p = is_geometry(index, primitive);
    lemma_first(ctx.meshes@, p);
    let i = crate::find::first(ctx.meshes@, p);
    if i < ctx.meshes@.len() {
        assert(p(ctx.meshes@[i]));
    } else {
        assert forall|i: int| 0 <= i < ctx.meshes@.len() implies !((
        #[trigger] ctx.meshes@[i]).node_index == index && ctx.meshes@[i].primitive
            == primitive) by {
            assert(!p(ctx.meshes@[i]));
        }
    }
}

/// A mesh that does not deform brings its geometry along; one that deforms brings its
/// rest pose.
pub proof fn law_meshes_bring_their_geometry(
    t: AssetTemplateNode,
    ctx: ImportContext,
    ms: Seq<CustomMaterial>,
    base: u128,
    name: Seq<char>,
    m: NodeMesh,
)
    requires
        t.light is None,
        t.primitives@.len() > 0,
        alike(t.primitives@),
        geometry(ctx.meshes@, t.gltf_node_index, None) == Some(m),
    ensures
        !moves(t.primitives@) ==> own_captures(t, ctx, ms, base, name) == seq![
            CaptureView { node: NodeId(base), label: name, mesh: m.mesh, tangents: m.tangents },
        ] && own_poses(t, ctx).len() == 0,
        moves(t.primitives@) ==> own_poses(t, ctx) == seq![
            BindPose { node_index: t.gltf_node_index, primitive: None, mesh: m.mesh },
        ] && own_captures(t, ctx, ms, base, name).len() == 0,
{
    let row = t.primitives@;
    assert(crate::import_scene::one_material(row)) by {
        assert forall|i: int| 0 < i < row.len() implies (#[trigger] row[i]).material_index
            == row[0].material_index by {}
    }
    assert(moves(row) == crate::import_scene::deforms(row));
}

/// What is brought along comes from the first tree, then from below it, then from the
/// trees beside it.
pub proof fn law_geometry_is_brought_in_order(
    nodes: Seq<AssetTemplateNode>,
    ctx: ImportContext,
    ms: Seq<CustomMaterial>,
    base: u128,
    fallback: Option<Seq<char>>,
    c: CaptureView,
    name: Seq<char>,
)
    requires
        nodes.len() > 0,
        nodes[0].label matches Some(l) && l@ == name,
        own_captures(nodes[0], ctx, ms, base, name).contains(c),
    ensures
        row_captures(nodes, ctx, ms, base, fallback).contains(c),
{
    let a = own_captures(nodes[0], ctx, ms, base, name);
    let i = choose|i: int| 0 <= i < a.len() && a[i] == c;
    assert(row_captures(nodes, ctx, ms, base, fallback)[i] == c);
}

/// Whether a node of some trees has an index in the file.
pub open spec fn has_index(nodes: Seq<AssetTemplateNode>, index: u32) -> bool
    decreases nodes,
{
    nodes.len() > 0 && (nodes[0].gltf_node_index == index || has_index(nodes[0].children@, index)
        || has_index(nodes.drop_first(), index))
}

proof fn lemma_other_ids_stay(
    nodes: Seq<AssetTemplateNode>,
    base: u128,
    m: Map<u128, NodeId>,
    index: u32,
)
    requires
        !has_index(nodes, index),
    ensures
        node_ids(nodes, base, m).contains_key(index as u128) == m.contains_key(index as u128),
        node_ids(nodes, base, m)[index as u128] == m[index as u128],
    decreases nodes,
{
    if nodes.len() > 0 {
        let t = nodes[0];
        let own = m.insert(t.gltf_node_index as u128, NodeId(base));
        let below = node_ids(t.children@, crate::import_scene::after(base, 1), own);
        lemma_other_ids_stay(t.children@, crate::import_scene::after(base, 1), own, index);
        lemma_other_ids_stay(
            nodes.drop_first(),
            crate::import_scene::after(base, 1 + crate::import_scene::size(t.children@)),
            below,
            index,
        );
    }
}

/// An index of the file that one node has leads to the node that was made for it.
pub proof fn law_index_leads_to_its_node(
    nodes: Seq<AssetTemplateNode>,
    base: u128,
    m: Map<u128, NodeId>,
)
    requires
        nodes.len() > 0,
        !has_index(nodes[0].children@, nodes[0].gltf_node_index),
        !has_index(nodes.drop_first(), nodes[0].gltf_node_index),
    ensures
        node_ids(nodes, base, m).contains_key(nodes[0].gltf_node_index as u128),
        node_ids(nodes, base, m)[nodes[0].gltf_node_index as u128] == NodeId(base),
{
    let t = nodes[0];
    let own = m.insert(t.gltf_node_index as u128, NodeId(base));
    let below = node_ids(t.children@, crate::import_scene::after(base, 1), own);
    lemma_other_ids_stay(
        t.children@,
        crate::import_scene::after(base, 1),
        own,
        t.gltf_node_index,
    );
    lemma_other_ids_stay(
        nodes.drop_first(),
        crate::import_scene::after(base, 1 + crate::import_scene::size(t.children@)),
        below,
        t.gltf_node_index,
    );
}

/// Geometry that arrives is kept under the id of its node, with its own tangents.
pub proof fn law_geometry_is_kept_under_its_node(caps: Seq<CaptureView>, i: int)
    requires
        0 <= i < caps.len(),
    ensures
        ({
            let r = geometry_row(caps)[i];
            &&& geometry_row(caps).len() == caps.len()
            &&& r.0 == caps[i].node.0
            &&& r.1.tangents == caps[i].tangents
            &&& r.1.positions == caps[i].mesh.positions
            &&& r.1.normals == caps[i].mesh.normals
            &&& r.1.uvs == caps[i].mesh.uvs
            &&& r.1.uvs1 == caps[i].mesh.uvs1
            &&& r.1.colors == caps[i].mesh.colors
            &&& r.1.indices == caps[i].mesh.indices
        }),
{
}

/// What is put under a key is found under it, where nothing else is put there later.
pub proof fn law_put_rows_are_found<V>(m: Map<u128, V>, rows: Seq<(u128, V)>, i: int)
    requires
        0 <= i < rows.len(),
        forall|j: int| i < j < rows.len() ==> (#[trigger] rows[j]).0 != rows[i].0,
    ensures
        all_put(m, rows).contains_key(rows[i].0),
        all_put(m, rows)[rows[i].0] == rows[i].1,
    decreases rows.len(),
{
    let less = rows.drop_last();
    if i < less.len() {
        assert(rows[rows.len() - 1].0 != rows[i].0);
        assert forall|j: int| i < j < less.len() implies (#[trigger] less[j]).0 != less[i].0 by {
            assert(less[j] == rows[j]);
        }
        law_put_rows_are_found(m, less, i);
        assert(less[i] == rows[i]);
    }
}

/// A bone is known by the node that was made for it, and by its index in the rig.
pub proof fn law_bones_are_those_of_the_file(
    n: AssetTemplateNode,
    ids: Map<u128, NodeId>,
    rig: Map<u128, u32>,
)
    ensures
        ({
            let k = n.gltf_node_index as u128;
            let r = own_joint(n, ids, rig);
            let s = joint_of(n, ids);
            &&& r.len() <= 1 && s.len() <= 1
            &&& (r.len() == 1) == (n.is_skin_joint && ids.contains_key(k) && rig.contains_key(k))
            &&& r.len() == 1 ==> r[0].node == ids[k] && r[0].index == rig[k]
            &&& (s.len() == 1) == (n.is_skin_joint && ids.contains_key(k))
            &&& s.len() == 1 ==> s[0].node == ids[k] && s[0].key == n.baked_transform_key
        }),
{
}

/// The bones of a tree are its own, then those below it, then those of the trees beside
/// it.
pub proof fn law_bones_are_found_in_order(
    nodes: Seq<AssetTemplateNode>,
    ids: Map<u128, NodeId>,
    rig: Map<u128, u32>,
)
    requires
        nodes.len() > 0,
    ensures
        skin_joints(nodes, ids, rig).len() == own_joint(nodes[0], ids, rig).len() + skin_joints(
            nodes[0].children@,
            ids,
            rig,
        ).len() + skin_joints(nodes.drop_first(), ids, rig).len(),
        nodes[0].is_skin_joint && ids.contains_key(nodes[0].gltf_node_index as u128)
            && rig.contains_key(nodes[0].gltf_node_index as u128) ==> skin_joints(
            nodes,
            ids,
            rig,
        )[0].node == ids[nodes[0].gltf_node_index as u128],
        joint_row(nodes, ids).len() == joint_of(nodes[0], ids).len() + joint_row(
            nodes[0].children@,
            ids,
        ).len() + joint_row(nodes.drop_first(), ids).len(),
{
}

/// The rest pose of a bone is where it stands when it arrives; other rest poses stay.
pub proof fn law_rest_pose_is_where_a_bone_arrives(
    m: Map<u128, Trs>,
    f: Seq<Tree>,
    joints: Seq<JointKey>,
    k: u128,
)
    ensures
        ({
            let r = rest_recorded(m, f, joints);
            let bone = exists|i: int|
                0 <= i < joints.len() && (#[trigger] joints[i]).node.0 == k && find(
                    f,
                    joints[i].node,
                ) is Some;
            &&& bone ==> r.contains_key(k) && r[k] == find(f, NodeId(k))->0.data.transform
            &&& !bone ==> r.contains_key(k) == m.contains_key(k) && r[k] == m[k]
        }),
    decreases joints.len(),
{
    if joints.len() > 0 {
        let less = joints.drop_last();
        law_rest_pose_is_where_a_bone_arrives(m, f, less, k);
        assert forall|i: int| 0 <= i < less.len() implies #[trigger] less[i] == joints[i] by {}
        let last = joints.last();
        if last.node.0 == k {
            assert(last.node == NodeId(k));
            assert(joints[joints.len() - 1] == last);
        }
        if exists|i: int|
            0 <= i < less.len() && (#[trigger] less[i]).node.0 == k && find(f, less[i].node)
                is Some {
            let i = choose|i: int|
                0 <= i < less.len() && (#[trigger] less[i]).node.0 == k && find(f, less[i].node)
                    is Some;
            assert(joints[i].node.0 == k);
        }
        if exists|i: int|
            0 <= i < joints.len() && (#[trigger] joints[i]).node.0 == k && find(f, joints[i].node)
                is Some {
            let i = choose|i: int|
                0 <= i < joints.len() && (#[trigger] joints[i]).node.0 == k && find(
                    f,
                    joints[i].node,
                ) is Some;
            if i < less.len() {
                assert(less[i].node.0 == k);
            }
        }
    }
}

/// What an import made is removed whole: each mesh, the material that came with it, and
/// each transform.
pub proof fn law_import_is_removed_whole(row: Seq<Primitive>, i: int)
    requires
        0 <= i < row.len(),
    ensures
        mesh_removals(row).len() == 2 * row.len(),
        mesh_removals(row)[2 * i] == Removal::Mesh(row[i].mesh_key),
        mesh_removals(row)[2 * i + 1] == Removal::Material(row[i].material_key),
    decreases row.len(),
{
    let less = row.drop_last();
    lemma_removals_len(less);
    if i < less.len() {
        law_import_is_removed_whole(less, i);
        assert(less[i] == row[i]);
    }
}

proof fn lemma_removals_len(row: Seq<Primitive>)
    ensures
        mesh_removals(row).len() == 2 * row.len(),
    decreases row.len(),
{
    if row.len() > 0 {
        lemma_removals_len(row.drop_last());
    }
}

/// The transform of a node is removed after its meshes, and before what is below it.
pub proof fn law_transforms_are_removed(nodes: Seq<AssetTemplateNode>)
    requires
        nodes.len() > 0,
    ensures
        ({
            let n = mesh_removals(nodes[0].primitives@).len() as int;
            let r = removals(nodes);
            &&& r[n] == Removal::Transform(nodes[0].baked_transform_key)
            &&& r.len() == n + 1 + removals(nodes[0].children@).len() + removals(
                nodes.drop_first(),
            ).len()
        }),
{
}

/// A material that arrives has the color, the sides and the definition of the file, and
/// is named as there.
pub proof fn law_library_has_the_file_material(
    m: CustomMaterial,
    ex: ExtractedMaterial,
    id: AssetId,
    d: MaterialDef,
)
    requires
        is_imported_material(m, ex, id, d),
    ensures
        m.id == id,
        m.builtin == Some(d),
        m.color == ex.color,
        m.double_sided == ex.def.double_sided,
        ex.def.label@.len() > 0 ==> m.name@ == ex.def.label@,
        ex.def.label@.len() == 0 ==> m.name@ == "Material"@,
        m.wgsl@.len() == 0,
{
}

/// A texture that arrives is a picture with the hash of its bytes, named with its
/// ending, and with the meaning of its slot.
pub proof fn law_texture_asset_is_the_picture(e: AssetEntry, t: TextureRow)
    requires
        is_texture_entry(e, t),
    ensures
        e.source matches AssetSource::Texture(TextureDef::Raster { display_name, color_kind }) && {
            &&& color_kind == Some(t.color_kind)
            &&& t.stored matches Some((hash, ext)) ==> display_name@ == t.name + "."@ + ext
                && e.content_hash@ == hash
            &&& t.stored is None ==> display_name@ == t.name && e.content_hash@.len() == 0
        },
{
}

/// The asset of a file knows the materials and the textures that came with it; the asset
/// of a mesh is one of its file, and can be edited.
pub proof fn law_file_asset_knows_its_parts(
    e: AssetEntry,
    name: Seq<char>,
    mats: Seq<AssetId>,
    images: Seq<AssetId>,
    g: AssetEntry,
    c: CaptureView,
    source: AssetId,
)
    requires
        is_file_entry(e, name, mats, images),
        is_mesh_entry(g, c, source),
    ensures
        e.source matches AssetSource::Filename(s) && s@ == name,
        e.gltf_material_asset_ids@ == mats,
        e.gltf_image_asset_ids@ == images,
        g.source matches AssetSource::Mesh(d) && {
            &&& d.label@ == c.label
            &&& d.source == Some(CapturedSource::Imported { source })
            &&& d.editable
            &&& d.stack.base == MeshBase::Captured(AssetId(c.node.0))
            &&& d.stack.modifiers@.len() == 0
        },
{
}

/// The material for meshes without one is plain and fully metallic.
pub proof fn law_default_material_is_plain(m: CustomMaterial, id: AssetId)
    requires
        is_default_material(m, id),
    ensures
        m.id == id,
        m.name@ == "Default"@,
        m.builtin matches Some(d) && d.metallic == (F32 { bits: 0x3F80_0000 }) && d.shading
            is Pbr,
{
}

} // verus!
