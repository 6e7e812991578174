//! What holds of an edit of the project as a whole: it changes the part that it is
//! about, leaves the others, and counts where something was done.
use crate::assets::{AssetEntry, CapturedSource, MeshBase, MeshData, ModifierStack, VertexOverrides};
use crate::bundle::{assets_of, bundle_leftovers, chilled, scene_of, BundleFile, Leftover};
use crate::command::{transient, EditorCommand};
use crate::controller::{revised, unwound};
use crate::errors::EditorError;
use crate::ids::{AssetId, NodeId};
use crate::mesh_edit::mesh_def;
use crate::node::NodeKind;
use crate::palette::{MaterialDef, MaterialVariant};
use crate::reseed::{def_followed, variant_followed};
use crate::scene_edit::{
    is_split_node, lowered, primitive_name, split_added, InsertSpec, NodeMeshCommand, Split,
};
use crate::table::Table;
use crate::tree::{added, find, lemma_find, removed, within, NodeData, Tree};
use crate::tree_laws::law_put_changes_one_node;
use crate::values::{F64, Trs};
use crate::workspace::{counted64, edit_step, new_project, scene_counted, SceneCounting, WorkView};
use vstd::prelude::*;

verus! {

/// Whether an edit is one of nodes or of where they stand.
pub open spec fn edits_nodes(c: EditorCommand) -> bool {
    ||| c is Node
    ||| c is CopyMaterialInstance
    ||| c is Duplicate
    ||| c is Reparent
    ||| c is Insert
    ||| c is InsertTree
    ||| c is Delete
    ||| c is ResetToBindPose
    ||| c is DropSkinning
    ||| c is SeparateMesh
    ||| c is ImportNaniteAsset
    ||| c is NewProject
    ||| c is Library
}

/// Whether an edit can change the assets or the geometry.
pub open spec fn edits_assets(c: EditorCommand) -> bool {
    ||| c is Insert
    ||| c is Asset
    ||| c is PurgeUnusedAssets
    ||| c is DropSkinning
    ||| c is Mesh
    ||| c is NodeMesh
    ||| c is SeparateMesh
    ||| c is ImportNaniteAsset
    ||| c is NewProject
}

/// Whether an edit can change the timeline.
pub open spec fn edits_timeline(c: EditorCommand) -> bool {
    ||| c is Clip
    ||| c is Track
    ||| c is Mixer
    ||| c is Transport
    ||| c is Duplicate
    ||| c is Delete
    ||| c is NewProject
}

/// An edit leaves alone what it is not about.
pub proof fn law_edit_leaves_the_rest<
    F: Fn(&ModifierStack, &VertexOverrides, &Table<MeshData>) -> MeshData,
>(
    eval: F,
    v: WorkView,
    cmd: EditorCommand,
    w: WorkView,
    r: Result<Seq<EditorCommand>, EditorError>,
)
    requires
        edit_step(eval, v, cmd, w, r),
    ensures
        r is Err ==> w == v,
        !edits_nodes(cmd) ==> w.nodes == v.nodes,
        !edits_assets(cmd) ==> w.store == v.store,
        !edits_timeline(cmd) ==> w.timeline == v.timeline,
        !(cmd is Library || cmd is NewProject) ==> w.library == v.library,
        !(cmd is World || cmd is NewProject) ==> w.world == v.world,
        !(cmd is SetSkinWeights || cmd is NewProject) ==> w.skins == v.skins,
        w.rest == v.rest,
        w.selections == v.selections,
        w.includes == v.includes && w.inputs == v.inputs,
        !(cmd is NewProject) ==> w.buffers == v.buffers && w.project_name == v.project_name
            && w.missing_assets == v.missing_assets && w.baseline == v.baseline,
        v.dirty && !(cmd is NewProject) ==> w.dirty,
        cmd is Outside || cmd is Batch ==> w == v,
{
}

/// An edit that is not kept leaves everything that is saved as it is, but for a new
/// project.
pub proof fn law_transient_edit_changes_nothing_saved<
    F: Fn(&ModifierStack, &VertexOverrides, &Table<MeshData>) -> MeshData,
>(
    eval: F,
    v: WorkView,
    cmd: EditorCommand,
    w: WorkView,
    r: Result<Seq<EditorCommand>, EditorError>,
)
    requires
        edit_step(eval, v, cmd, w, r),
        transient(cmd),
        !(cmd is NewProject),
    ensures
        w.nodes == v.nodes,
        w.store == v.store,
        w.library.materials == v.library.materials,
        w.timeline.clips == v.timeline.clips,
        w.timeline.layers == v.timeline.layers,
        w.world == v.world,
        w.skins == v.skins,
        w.dirty == v.dirty,
        r matches Ok(row) ==> row.len() == 0,
{
}

/// An edit of clips, tracks or layers is counted as one of the animation, and an edit of
/// vertices as one of the geometry.
pub proof fn law_edits_of_motion_and_shape_are_counted<
    F: Fn(&ModifierStack, &VertexOverrides, &Table<MeshData>) -> MeshData,
>(
    eval: F,
    v: WorkView,
    cmd: EditorCommand,
    mid: WorkView,
    r: Result<Seq<EditorCommand>, EditorError>,
)
    requires
        edit_step(eval, v, cmd, mid, r),
    ensures
        ({
            let w = revised(mid, cmd);
            &&& (mid.timeline.clips != v.timeline.clips || mid.timeline.layers
                != v.timeline.layers) && !(cmd is NewProject || cmd is Delete || cmd is Duplicate)
                ==> w.anim_revision != mid.anim_revision
            &&& mid.store.geometry != v.store.geometry && (cmd is Mesh || cmd is NodeMesh || cmd
                is SeparateMesh) ==> w.mesh_revision != mid.mesh_revision
            &&& !(cmd is Clip || cmd is Track || cmd is Mixer) ==> w.anim_revision
                == mid.anim_revision
            &&& !(cmd is Mesh || cmd is NodeMesh || cmd is SeparateMesh) ==> w.mesh_revision
                == mid.mesh_revision
            &&& w.nodes == mid.nodes && w.store == mid.store && w.timeline == mid.timeline
            &&& w.structure_rev == mid.structure_rev && w.scene_revision == mid.scene_revision
        }),
{
}

/// A counter goes on by one where something was done, and stays where nothing was or it
/// was refused.
pub proof fn law_counter_goes_on_where_something_was_done(
    n: u64,
    how: SceneCounting,
    geometry: Map<u128, MeshData>,
    row: Seq<EditorCommand>,
    e: EditorError,
)
    ensures
        scene_counted(n, how, geometry, Err(e)) == n,
        how is Never ==> scene_counted(n, how, geometry, Ok(row)) == n,
        how is Once ==> scene_counted(n, how, geometry, Ok(row)) != n,
        how is Twice ==> scene_counted(n, how, geometry, Ok(row)) != n,
        how is WithInverse && row.len() > 0 ==> scene_counted(n, how, geometry, Ok(row)) != n,
        how is WithInverse && row.len() == 0 ==> scene_counted(n, how, geometry, Ok(row)) == n,
        n < u64::MAX ==> counted64(n, true) == n + 1,
{
}

/// A deleted node is gone from the scene and from what is selected; the rest of what is
/// selected stays.
pub proof fn law_deleted_node_is_not_selected<
    F: Fn(&ModifierStack, &VertexOverrides, &Table<MeshData>) -> MeshData,
>(
    eval: F,
    v: WorkView,
    id: NodeId,
    w: WorkView,
    r: Result<Seq<EditorCommand>, EditorError>,
    x: NodeId,
)
    requires
        edit_step(eval, v, EditorCommand::Delete { id }, w, r),
    ensures
        r is Ok <==> find(v.nodes, id) is Some,
        r is Ok ==> w.nodes == removed(v.nodes, id),
        r is Ok ==> w.session.selected.contains(x) == (v.session.selected.contains(x) && x != id),
        r is Ok ==> w.session.mode == v.session.mode && w.session.asset_selection
            == v.session.asset_selection,
        w.timeline.clips.len() < v.timeline.clips.len() ==> w.dirty,
{
    crate::node_laws::law_id_is_taken_out(v.session.selected, id, x);
}

/// A node whose material settings are copied onto another gives it all of them; the
/// other keeps everything else. Nothing is copied between different materials.
pub proof fn law_material_settings_are_copied<
    F: Fn(&ModifierStack, &VertexOverrides, &Table<MeshData>) -> MeshData,
>(
    eval: F,
    v: WorkView,
    from: NodeId,
    to: NodeId,
    w: WorkView,
    r: Result<Seq<EditorCommand>, EditorError>,
    other: NodeId,
)
    requires
        edit_step(eval, v, EditorCommand::CopyMaterialInstance { from, to }, w, r),
        find(v.nodes, from) is Some,
        find(v.nodes, to) is Some,
        find(v.nodes, from)->0.data.kind.assigned(),
        find(v.nodes, to)->0.data.kind.assigned(),
    ensures
        ({
            let a = find(v.nodes, from)->0.data.kind.current();
            let t = find(v.nodes, to)->0.data;
            if a.asset == t.kind.current().asset {
                let u = find(w.nodes, to)->0.data;
                &&& find(w.nodes, to) is Some
                &&& u.kind.assigned()
                &&& u.kind.current() == a
                &&& u.name == t.name && u.transform == t.transform && u.visible == t.visible
                &&& u.locked == t.locked && u.prefab == t.prefab
                &&& other != to && find(v.nodes, other) is Some ==> find(w.nodes, other)->0.data
                    == find(v.nodes, other)->0.data
            } else {
                w == v
            }
        }),
{
    let a = find(v.nodes, from)->0.data.kind.current();
    let t = find(v.nodes, to)->0.data;
    lemma_find(v.nodes, to);
    if a.asset == t.kind.current().asset {
        let k2 = find(w.nodes, to)->0.data.kind;
        law_put_changes_one_node(v.nodes, to, NodeData { kind: k2, ..t }, other);
        crate::palette::law_replaced_instance_renders(
            t.kind.palette_of()->0,
            k2.palette_of()->0,
            a,
        );
    }
}

/// A mesh that loses its skin stands where it stood, looks as it looked, and has the
/// geometry of its rest pose.
pub proof fn law_unskinned_mesh_looks_alike<
    F: Fn(&ModifierStack, &VertexOverrides, &Table<MeshData>) -> MeshData,
>(
    eval: F,
    v: WorkView,
    node: NodeId,
    data: MeshData,
    w: WorkView,
    r: Result<Seq<EditorCommand>, EditorError>,
    k: u128,
)
    requires
        edit_step(
            eval,
            v,
            EditorCommand::DropSkinning { node, bind_pose: Some(data) },
            w,
            r,
        ),
        find(v.nodes, node) is Some,
        find(v.nodes, node)->0.data.kind is SkinnedMesh,
    ensures
        ({
            let a = find(v.nodes, node)->0.data;
            let b = find(w.nodes, node)->0.data;
            &&& find(w.nodes, node) is Some
            &&& b.name == a.name && b.transform == a.transform && b.visible == a.visible
            &&& b.locked == a.locked && b.prefab == a.prefab
            &&& b.kind matches NodeKind::Mesh { mesh, palette, shadow, lod } && {
                &&& mesh == AssetId(node.0)
                &&& palette == a.kind->SkinnedMesh_palette
                &&& shadow == a.kind->SkinnedMesh_shadow
                &&& lod == a.kind->SkinnedMesh_lod
            }
            &&& w.store.geometry.contains_key(node.0)
            &&& w.store.geometry[node.0].positions == data.positions
            &&& w.store.geometry[node.0].indices == data.indices
            &&& w.store.geometry[node.0].normals == data.normals
            &&& w.store.geometry[node.0].uvs == data.uvs
            &&& w.store.geometry[node.0].colors == data.colors
            &&& w.store.geometry[node.0].tangents is None
            &&& w.dirty
            &&& k != node.0 ==> w.store.geometry.contains_key(k) == v.store.geometry.contains_key(k)
                && w.store.geometry[k] == v.store.geometry[k] && w.store.assets.contains_key(k)
                == v.store.assets.contains_key(k) && w.store.assets[k] == v.store.assets[k]
        }),
{
    lemma_find(v.nodes, node);
    let t = find(v.nodes, node)->0.data;
    match t.kind {
        NodeKind::SkinnedMesh { skin, palette, shadow, lod } => {
            law_put_changes_one_node(
                v.nodes,
                node,
                NodeData {
                    kind: NodeKind::Mesh { mesh: AssetId(node.0), palette, shadow, lod },
                    ..t
                },
                node,
            );
        },
        _ => {},
    }
}

/// A new project has the light and nothing else: no assets, no materials, no clips, and
/// nothing selected; it is named as new and has nothing to save. How bundles are written
/// and how the timeline is shown stay.
pub proof fn law_new_project_is_empty(v: WorkView, light: Tree)
    ensures
        ({
            let w = new_project(v, light);
            &&& w.nodes == seq![light]
            &&& w.store.assets == Map::<u128, AssetEntry>::empty()
            &&& w.library.materials.len() == 0 && w.library.current is None
            &&& w.timeline.clips.len() == 0 && w.timeline.current_clip is None
            &&& w.timeline.layers.len() == 0 && w.timeline.selection is None
            &&& w.timeline.solo_root is None && !w.timeline.playing
            &&& w.timeline.playhead == (F64 { bits: 0 })
            &&& w.timeline.fps == v.timeline.fps && w.timeline.dock == v.timeline.dock
            &&& w.world.bundle_options == v.world.bundle_options
            &&& w.world.environment == w.baseline
            &&& w.skins == Map::<u128, crate::skin::SkinView>::empty()
            &&& w.buffers == Map::<u128, Seq<u32>>::empty()
            &&& w.session.selected.len() == 0 && w.session.asset_selection is None
            &&& w.session.vertex_selection is None
            &&& w.session.settings == v.session.settings && w.session.mode == v.session.mode
            &&& w.missing_assets.len() == 0
            &&& !w.dirty
        }),
{
}

/// The part of a mesh that is taken out is a node of its own: where its source stands,
/// with its source's materials and the geometry that was taken out.
pub proof fn law_split_part_is_its_own_node(
    v: crate::mesh_edit::StoreView,
    s: Split,
    w: crate::mesh_edit::StoreView,
    n: Tree,
    src: NodeData,
    k: u128,
)
    requires
        split_added(v, s, w),
        is_split_node(n, s, src),
    ensures
        n.id == s.new_node,
        n.data.transform == src.transform,
        n.data.kind.palette_of() is Some,
        n.data.kind.palette_of() == src.kind.palette_of(),
        n.data.kind matches NodeKind::Mesh { mesh, .. } ==> mesh.0 == s.new_node.0,
        w.geometry.contains_key(s.new_node.0),
        w.geometry[s.new_node.0] == s.extracted,
        k != s.new_node.0 ==> w.geometry.contains_key(k) == v.geometry.contains_key(k)
            && w.geometry[k] == v.geometry[k] && w.assets.contains_key(k)
            == v.assets.contains_key(k) && w.assets[k] == v.assets[k],
        mesh_def(w, AssetId(s.new_node.0)) matches Some(d) && d.editable && d.stack.base
            == MeshBase::Captured(AssetId(s.new_node.0)),
{
}

/// A primitive that is put into the scene is a mesh of its own, made of that primitive
/// and named for it, below its parent and as it comes.
pub proof fn law_primitive_is_put_in_as_a_mesh<
    F: Fn(&ModifierStack, &VertexOverrides, &Table<MeshData>) -> MeshData,
>(
    eval: F,
    v: WorkView,
    id: NodeId,
    shape: crate::assets::PrimitiveShape,
    w: WorkView,
    r: Result<Seq<EditorCommand>, EditorError>,
)
    requires
        edit_step(
            eval,
            v,
            EditorCommand::Insert { id, spec: InsertSpec::Primitive(shape), parent: None },
            w,
            r,
        ),
        !within(v.nodes, id),
    ensures
        w.nodes.len() == v.nodes.len() + 1,
        w.nodes.drop_last() == v.nodes,
        ({
            let n = w.nodes.last();
            let d = mesh_def(w.store, AssetId(id.0))->0;
            &&& n.id == id
            &&& n.data.name@ == primitive_name(shape)
            &&& n.data.visible && !n.data.locked
            &&& n.children.len() == 0
            &&& n.data.kind matches NodeKind::Mesh { mesh, palette, .. } && mesh == AssetId(id.0)
                && palette.variants@.len() == 0
            &&& mesh_def(w.store, AssetId(id.0)) is Some
            &&& d.stack.base == MeshBase::Primitive(shape)
            &&& d.source == Some(CapturedSource::Primitive(shape))
            &&& d.stack.modifiers@.len() == 0
            &&& d.label@ == primitive_name(shape)
            &&& w.store.geometry.contains_key(id.0)
        }),
{
    assert(exists|n: Tree|
        crate::scene_edit::is_plain_node(n, id, primitive_name(shape), Trs::identity())
            && crate::scene_edit::is_bare_mesh(n.data.kind, AssetId(id.0)) && w.nodes
            == #[trigger] added(v.nodes, None, None, n));
    let n = choose|n: Tree|
        crate::scene_edit::is_plain_node(n, id, primitive_name(shape), Trs::identity())
            && crate::scene_edit::is_bare_mesh(n.data.kind, AssetId(id.0)) && w.nodes
            == #[trigger] added(v.nodes, None, None, n);
    assert(w.nodes.last() == n);
    assert(w.nodes.drop_last() =~= v.nodes);
}

/// An edit of a node's vertices is made on its mesh, with the vertices and the values
/// that are given.
pub proof fn law_node_vertices_are_those_of_its_mesh(
    cmd: NodeMeshCommand,
    mesh: AssetId,
    vertices: nat,
    low: crate::mesh_edit::MeshCommand,
)
    requires
        lowered(cmd, mesh, vertices, low),
        vertices <= u32::MAX,
    ensures
        match (cmd, low) {
            (
                NodeMeshCommand::PaintVerticesWhere { indices, color, .. },
                crate::mesh_edit::MeshCommand::PaintVertexColors { mesh: m, pick, color: c },
            ) => m == mesh && pick.selection is None && pick.indices == indices && c == color,
            (
                NodeMeshCommand::TransformVerticesWhere { indices, targets, .. },
                crate::mesh_edit::MeshCommand::SoftTransformVertices { mesh: m, pick, targets: t },
            ) => m == mesh && pick.selection is None && pick.indices == indices && t == targets,
            (
                NodeMeshCommand::DisplaceFromTexture { targets, .. },
                crate::mesh_edit::MeshCommand::SetVertexPositions { mesh: m, pick, positions },
            ) => m == mesh && pick.selection is None && positions == targets
                && pick.indices@.len() == vertices && forall|i: int|
                0 <= i < vertices ==> #[trigger] pick.indices@[i] == i,
            _ => false,
        },
{
}

/// A mesh follows the definition of its material in what it has not set itself, slot by
/// slot, and keeps its own label.
pub proof fn law_mesh_follows_its_definition(
    own: MaterialDef,
    before: MaterialDef,
    after: MaterialDef,
)
    ensures
        ({
            let r = def_followed(own, before, after);
            &&& r.label == own.label
            &&& follows(own.shading, before.shading, after.shading, r.shading)
            &&& follows(own.base_color, before.base_color, after.base_color, r.base_color)
            &&& follows(own.emissive, before.emissive, after.emissive, r.emissive)
            &&& follows(own.metallic, before.metallic, after.metallic, r.metallic)
            &&& follows(own.roughness, before.roughness, after.roughness, r.roughness)
            &&& follows(own.normal_scale, before.normal_scale, after.normal_scale, r.normal_scale)
            &&& follows(
                own.occlusion_strength,
                before.occlusion_strength,
                after.occlusion_strength,
                r.occlusion_strength,
            )
            &&& follows(own.ssr_mask, before.ssr_mask, after.ssr_mask, r.ssr_mask)
            &&& follows(own.alpha_mode, before.alpha_mode, after.alpha_mode, r.alpha_mode)
            &&& follows(own.double_sided, before.double_sided, after.double_sided, r.double_sided)
            &&& follows(
                own.base_color_texture,
                before.base_color_texture,
                after.base_color_texture,
                r.base_color_texture,
            )
            &&& follows(
                own.metallic_roughness_texture,
                before.metallic_roughness_texture,
                after.metallic_roughness_texture,
                r.metallic_roughness_texture,
            )
            &&& follows(
                own.normal_texture,
                before.normal_texture,
                after.normal_texture,
                r.normal_texture,
            )
            &&& follows(
                own.occlusion_texture,
                before.occlusion_texture,
                after.occlusion_texture,
                r.occlusion_texture,
            )
            &&& follows(
                own.emissive_texture,
                before.emissive_texture,
                after.emissive_texture,
                r.emissive_texture,
            )
        }),
        ({
            let a = own.extensions;
            let b = before.extensions;
            let c = after.extensions;
            let r = def_followed(own, before, after).extensions;
            &&& follows(
                a.emissive_strength,
                b.emissive_strength,
                c.emissive_strength,
                r.emissive_strength,
            )
            &&& follows(a.specular, b.specular, c.specular, r.specular)
            &&& follows(a.transmission, b.transmission, c.transmission, r.transmission)
            &&& follows(
                a.diffuse_transmission,
                b.diffuse_transmission,
                c.diffuse_transmission,
                r.diffuse_transmission,
            )
            &&& follows(a.volume, b.volume, c.volume, r.volume)
            &&& follows(a.clearcoat, b.clearcoat, c.clearcoat, r.clearcoat)
            &&& follows(a.sheen, b.sheen, c.sheen, r.sheen)
            &&& follows(a.anisotropy, b.anisotropy, c.anisotropy, r.anisotropy)
            &&& follows(a.iridescence, b.iridescence, c.iridescence, r.iridescence)
        }),
{
}

/// Whether a value follows where it was that of the definition, and stays elsewhere.
pub open spec fn follows<T>(own: T, before: T, after: T, r: T) -> bool {
    (own == before ==> r == after) && (own != before ==> r == own)
}

/// Only what renders with a material follows its definition.
pub proof fn law_other_materials_do_not_follow(
    v: MaterialVariant,
    id: AssetId,
    before: MaterialDef,
    after: MaterialDef,
)
    ensures
        ({
            let r = variant_followed(v, id, before, after);
            &&& r.id == v.id && r.name == v.name
            &&& r.instance.asset == v.instance.asset
            &&& r.instance.uniform_overrides == v.instance.uniform_overrides
            &&& r.instance.texture_overrides == v.instance.texture_overrides
            &&& r.instance.buffer_overrides == v.instance.buffer_overrides
            &&& v.instance.asset != id ==> r == v
            &&& v.instance.asset == id ==> r.instance.inline == def_followed(
                v.instance.inline,
                before,
                after,
            )
        }),
{
}

/// A bundle has its scene in one file, the last of that name; every other file is an
/// asset under its path, the last of each name.
pub proof fn law_bundle_is_split_by_path(files: Seq<BundleFile>, f: BundleFile, path: Seq<char>)
    ensures
        f.path@ == "scene.toml"@ ==> scene_of(files.push(f)) == Some(f.bytes) && assets_of(
            files.push(f),
        ) == assets_of(files),
        f.path@ != "scene.toml"@ ==> {
            let m = assets_of(files.push(f));
            &&& scene_of(files.push(f)) == scene_of(files)
            &&& m.contains_key(f.path@) && m[f.path@] == f.bytes
            &&& path != f.path@ ==> m.contains_key(path) == assets_of(files).contains_key(path)
                && m[path] == assets_of(files)[path]
        },
        scene_of(Seq::empty()) is None,
        !assets_of(Seq::empty()).contains_key(path),
{
    assert(files.push(f).drop_last() =~= files);
}

/// What is only kept in memory is forgotten; what is saved stays.
pub proof fn law_cold_start_keeps_what_is_saved(v: WorkView, geometry_too: bool)
    ensures
        ({
            let w = chilled(v, geometry_too);
            &&& w.skins == Map::<u128, crate::skin::SkinView>::empty()
            &&& w.buffers == Map::<u128, Seq<u32>>::empty()
            &&& geometry_too ==> w.store.geometry == Map::<u128, MeshData>::empty()
            &&& !geometry_too ==> w.store.geometry == v.store.geometry
            &&& w.store.assets == v.store.assets
            &&& w.nodes == v.nodes && w.library == v.library && w.timeline == v.timeline
            &&& w.world == v.world && w.session == v.session && w.dirty == v.dirty
        }),
{
}

/// What a bundle left in the renderer is removed whole: every mesh, every light and
/// every clip, and the mixer where there were clips.
pub proof fn law_leftovers_are_removed_whole(
    meshes: Seq<u64>,
    lights: Seq<u64>,
    clips: Seq<u64>,
    i: int,
)
    ensures
        ({
            let r = bundle_leftovers(meshes, lights, clips);
            let n = meshes.len() as int;
            let m = lights.len() as int;
            &&& r.len() == n + m + clips.len() + if clips.len() > 0 {
                1int
            } else {
                0
            }
            &&& 0 <= i < n ==> r[i] == Leftover::Mesh(meshes[i])
            &&& 0 <= i < m ==> r[n + i] == Leftover::Light(lights[i])
            &&& 0 <= i < clips.len() ==> r[n + m + i] == Leftover::Clip(clips[i])
            &&& clips.len() > 0 ==> r.last() is ClearMixer
        }),
{
}

/// What was done last is taken back first.
pub proof fn law_last_is_taken_back_first(
    rows: Seq<Seq<EditorCommand>>,
    last: Seq<EditorCommand>,
)
    ensures
        unwound(rows.push(last)) == last + unwound(rows),
        unwound(Seq::empty()).len() == 0,
{
    assert(rows.push(last).drop_last() =~= rows);
}

} // verus!
