//! Bringing a model into the project: its materials, textures, nodes, geometry,
//! rest poses and animations.
use crate::asset_edit::{is_imported_mesh, mint_imported_mesh};
use crate::asset_template::{
    assemble_skin_joints, lacks_material, skin_joints, template_needs_default_material,
    AssetTemplateNode,
};
use crate::assets::{AssetEntry, AssetSource, MeshData};
use crate::custom_material::CustomMaterial;
use crate::errors::EditorError;
use crate::ids::{AssetId, NodeId};
use crate::import_clips::{animations_imported, import_animations, ExtractedAnimation};
use crate::import_library::{
    brings_materials, default_material, import_materials, is_default_material, is_texture_entry,
    material_id, rows_through, texture_entry, texture_id, texture_rows, ExportImage,
    ExtractedMaterial, ImportTexture, TextureRow, TEXTURE_PLACE,
};
use crate::import_scene::{
    after, build_editor_subtree, capture_views, id_after, lemma_after, map_nodes, mirrors, node_ids,
    row_captures, row_id, row_poses, BindPose, Capture, CaptureView, ImportContext, NodeMesh,
};
use crate::list::{List, Same};
use crate::library_edit::LibraryView;
use crate::mesh_edit::{MeshStore, StoreView};
use crate::table::Table;
use crate::tree::{collect_ids, find, find_by_id, forest, ids, lemma_model, Node, Tree};
use crate::values::Trs;
use crate::workspace::{count64, counted64, WorkView, Workspace};
use vstd::prelude::*;

verus! {

/// How far the id of the file is from that of the first node.
pub const FILE_PLACE: u128 = 0x0400_0000_0000_0000_0000_0000_0000_0000;

/// A model as it was read from its file.
pub struct ModelImport {
    pub display_name: String,
    pub roots: Vec<AssetTemplateNode>,
    pub materials: Vec<ExtractedMaterial>,
    /// The encoded bytes of the textures, by their keys.
    pub images: Table<ExportImage>,
    pub meshes: Vec<NodeMesh>,
    /// The index in the rig for each index of the file.
    pub rig: Table<u32>,
    pub animations: Vec<ExtractedAnimation>,
}

/// A node that an import put at the top.
pub struct ImportedRoot {
    pub id: NodeId,
    pub name: String,
}

/// A bone and the transform that the skin reads for it.
#[derive(Clone, Copy, PartialEq, Eq, Structural, Debug)]
pub struct JointKey {
    pub node: NodeId,
    pub key: u64,
}

/// What an import has brought.
pub struct Imported {
    /// The asset of the file.
    pub source: AssetId,
    pub roots: Vec<ImportedRoot>,
    pub node_count: usize,
    pub materials: Vec<AssetId>,
    pub skin_joints: usize,
    pub clips: usize,
    pub textures: Vec<ImportTexture>,
    pub poses: Vec<BindPose>,
    pub joints: Vec<JointKey>,
    /// Every node that was made.
    pub instances: Vec<NodeId>,
}

/// The id of the file's asset.
pub open spec fn file_id(base: u128) -> AssetId {
    AssetId(after(base, FILE_PLACE as nat))
}

/// The id of the material for meshes without one.
pub open spec fn default_id(base: u128) -> AssetId {
    AssetId(after(base, FILE_PLACE as nat + 1))
}

/// A map with a row of values put in, one after another.
pub open spec fn all_put<V>(m: Map<u128, V>, rows: Seq<(u128, V)>) -> Map<u128, V>
    decreases rows.len(),
{
    if rows.len() == 0 {
        m
    } else {
        all_put(m, rows.drop_last()).insert(rows.last().0, rows.last().1)
    }
}

proof fn lemma_put_one<V>(m: Map<u128, V>, rows: Seq<(u128, V)>, k: u128, v: V)
    ensures
        all_put(m, rows.push((k, v))) == all_put(m, rows).insert(k, v),
{
    assert(rows.push((k, v)).drop_last() =~= rows);
}

/// An import leaves every asset as it was whose id is not one of its own.
pub proof fn law_import_keeps_other_assets<V>(m: Map<u128, V>, rows: Seq<(u128, V)>, k: u128)
    requires
        forall|i: int| 0 <= i < rows.len() ==> (#[trigger] rows[i]).0 != k,
    ensures
        all_put(m, rows).contains_key(k) == m.contains_key(k),
        m.contains_key(k) ==> all_put(m, rows)[k] == m[k],
    decreases rows.len(),
{
    if rows.len() > 0 {
        law_import_keeps_other_assets(m, rows.drop_last(), k);
    }
}

/// Whether a model has a mesh without a material.
pub open spec fn needs_default(roots: Seq<AssetTemplateNode>) -> bool {
    exists|i: int| 0 <= i < roots.len() && lacks_material(#[trigger] roots[i])
}

fn any_lacks_material(roots: &Vec<AssetTemplateNode>) -> (r: bool)
    ensures
        r == needs_default(roots@),
{
    let mut i: usize = 0;
    while i < roots.len()
        invariant
            i <= roots@.len(),
            forall|j: int| 0 <= j < i ==> !lacks_material(#[trigger] roots@[j]),
        decreases roots@.len() - i,
    {
        if template_needs_default_material(&roots[i]) {
            return true;
        }
        i += 1;
    }
    false
}

/// Whether an entry is that of the file: its name, and which materials and
/// textures came from it.
pub open spec fn is_file_entry(e: AssetEntry, name: Seq<char>, mats: Seq<AssetId>, images: Seq<AssetId>) -> bool {
    &&& e.content_hash@.len() == 0
    &&& e.texture_export is None
    &&& e.gltf_material_asset_ids@ == mats
    &&& e.gltf_image_asset_ids@ == images
    &&& match e.source {
        AssetSource::Filename(s) => s@ == name,
        _ => false,
    }
}

/// Whether an entry is that of geometry that a node has taken for its own.
pub open spec fn is_mesh_entry(e: AssetEntry, c: CaptureView, source: AssetId) -> bool {
    e.is_plain(e.source, seq![]) && match e.source {
        AssetSource::Mesh(d) => is_imported_mesh(d, AssetId(c.node.0), c.label, source),
        _ => false,
    }
}

/// The ids of the materials that an import brings.
pub open spec fn material_ids(base: u128, n: nat) -> Seq<AssetId> {
    Seq::new(n, |i: int| material_id(base, i as nat))
}

/// The ids of the textures that an import brings.
pub open spec fn texture_ids(base: u128, n: nat) -> Seq<AssetId> {
    Seq::new(n, |i: int| texture_id(base, i as nat))
}

/// Whether a row of entries is what an import adds to the asset table: the
/// textures, the file, and the meshes.
pub open spec fn is_entry_row(
    rows: Seq<(u128, AssetEntry)>,
    texs: Seq<TextureRow>,
    name: Seq<char>,
    mats: nat,
    caps: Seq<CaptureView>,
    base: u128,
) -> bool {
    let t = texs.len() as int;
    &&& rows.len() == t + 1 + caps.len()
    &&& forall|i: int|
        0 <= i < t ==> (#[trigger] rows[i]).0 == texture_id(base, i as nat).0 && is_texture_entry(
            rows[i].1,
            texs[i],
        )
    &&& rows[t].0 == file_id(base).0
    &&& is_file_entry(rows[t].1, name, material_ids(base, mats), texture_ids(base, texs.len()))
    &&& forall|j: int|
        t < j < rows.len() ==> (#[trigger] rows[j]).0 == caps[j - t - 1].node.0 && is_mesh_entry(
            rows[j].1,
            caps[j - t - 1],
            file_id(base),
        )
}

/// The geometry that the nodes of an import take for their own.
pub open spec fn geometry_row(caps: Seq<CaptureView>) -> Seq<(u128, MeshData)> {
    Seq::new(
        caps.len(),
        |i: int| (caps[i].node.0, MeshData { tangents: caps[i].tangents, ..caps[i].mesh }),
    )
}

/// The bones of an import, in pre-order, and the transforms that the skin reads.
pub open spec fn joint_row(nodes: Seq<AssetTemplateNode>, map: Map<u128, NodeId>) -> Seq<JointKey>
    decreases nodes,
{
    if nodes.len() == 0 {
        seq![]
    } else {
        joint_of(nodes[0], map) + joint_row(nodes[0].children@, map) + joint_row(
            nodes.drop_first(),
            map,
        )
    }
}

/// The bone that a node is, where it is one.
pub open spec fn joint_of(n: AssetTemplateNode, map: Map<u128, NodeId>) -> Seq<JointKey> {
    let k = n.gltf_node_index as u128;
    if n.is_skin_joint && map.contains_key(k) {
        seq![JointKey { node: map[k], key: n.baked_transform_key }]
    } else {
        seq![]
    }
}

/// The rest poses with those of bones: each as its node stands.
pub open spec fn rest_recorded(m: Map<u128, Trs>, f: Seq<Tree>, joints: Seq<JointKey>) -> Map<u128, Trs>
    decreases joints.len(),
{
    if joints.len() == 0 {
        m
    } else {
        let front = rest_recorded(m, f, joints.drop_last());
        match find(f, joints.last().node) {
            Some(n) => front.insert(joints.last().node.0, n.data.transform),
            None => front,
        }
    }
}

/// Whether the nodes of an import are built with the right references.
pub open spec fn is_context(ctx: ImportContext, imp: ModelImport, base: u128) -> bool {
    let map = node_ids(imp.roots@, base, Map::empty());
    &&& ctx.source == file_id(base)
    &&& ctx.mat_ids@ == material_ids(base, imp.materials@.len())
    &&& ctx.default_mat == if needs_default(imp.roots@) {
        Some(default_id(base))
    } else {
        None
    }
    &&& ctx.meshes == imp.meshes
    &&& ctx.rig == imp.rig
    &&& ctx.joints@ == skin_joints(imp.roots@, map, imp.rig@)
}

/// Whether a library is one that an import has added its materials to.
pub open spec fn library_grown(
    had: Seq<CustomMaterial>,
    ms: Seq<CustomMaterial>,
    imp: ModelImport,
    base: u128,
) -> bool {
    let n = had.len() as int;
    let k = imp.materials@.len() as int;
    &&& ms.len() == n + k + if needs_default(imp.roots@) {
        1int
    } else {
        0
    }
    &&& ms.take(n) == had
    &&& brings_materials(ms, n, imp.materials@, imp.images@, base, k)
    &&& needs_default(imp.roots@) ==> is_default_material(ms[n + k], default_id(base))
}

/// Whether a workspace is another into which a model was brought. `ctx` is what
/// the nodes refer to, `rows` what was added to the asset table.
pub open spec fn import_step(
    v: WorkView,
    imp: ModelImport,
    base: u128,
    ctx: ImportContext,
    rows: Seq<(u128, AssetEntry)>,
    w: WorkView,
) -> bool {
    let ms = w.library.materials;
    let name = imp.display_name@;
    let map = node_ids(imp.roots@, base, Map::empty());
    let texs = rows_through(imp.materials@, imp.images@, imp.materials@.len());
    let caps = row_captures(imp.roots@, ctx, ms, base, Some(name));
    let n = v.nodes.len() as int;
    &&& is_context(ctx, imp, base)
    &&& library_grown(v.library.materials, ms, imp, base)
    &&& is_entry_row(rows, texs, name, imp.materials@.len(), caps, base)
    &&& w.nodes.len() == n + imp.roots@.len()
    &&& w.nodes.take(n) == v.nodes
    &&& forall|i: int|
        0 <= i < imp.roots@.len() ==> mirrors(
            #[trigger] imp.roots@[i],
            ctx,
            ms,
            row_id(imp.roots@, base, i),
            Some(name),
            w.nodes[n + i],
        )
    &&& w == (WorkView {
        nodes: w.nodes,
        store: StoreView {
            assets: all_put(v.store.assets, rows),
            geometry: all_put(v.store.geometry, geometry_row(caps)),
        },
        library: LibraryView { materials: ms, ..v.library },
        timeline: animations_imported(v.timeline, imp.animations@, map, name, base),
        rest: rest_recorded(v.rest, w.nodes, joint_row(imp.roots@, map)),
        dirty: true,
        scene_revision: counted64(v.scene_revision, true),
        ..v
    })
}

/// Whether a report says what an import has brought.
pub open spec fn reports(v: WorkView, imp: ModelImport, base: u128, ctx: ImportContext, w: WorkView, r: Imported) -> bool {
    let map = node_ids(imp.roots@, base, Map::empty());
    let n = v.nodes.len() as int;
    &&& r.source == file_id(base)
    &&& r.roots@.len() == imp.roots@.len()
    &&& forall|i: int|
        0 <= i < r.roots@.len() ==> (#[trigger] r.roots@[i]).id == w.nodes[n + i].id
            && r.roots@[i].name@ == w.nodes[n + i].data.name@
    &&& r.node_count == map.dom().len()
    &&& r.materials@ == material_ids(base, imp.materials@.len())
    &&& r.skin_joints == joint_row(imp.roots@, map).len()
    &&& r.clips == imp.animations@.len()
    &&& texture_rows(r.textures@) == rows_through(
        imp.materials@,
        imp.images@,
        imp.materials@.len(),
    )
    &&& r.poses@ == row_poses(imp.roots@, ctx)
    &&& r.joints@ == joint_row(imp.roots@, map)
    &&& r.instances@ == ids(w.nodes.skip(n))
}

fn collect_joint_keys(nodes: &Vec<AssetTemplateNode>, map: &Table<NodeId>, out: &mut Vec<JointKey>)
    ensures
        final(out)@ == old(out)@ + joint_row(nodes@, map@),
    decreases nodes@,
{
    let ghost start = out@;
    let mut i: usize = 0;
    assert(nodes@.skip(0) =~= nodes@);
    while i < nodes.len()
        invariant
            i <= nodes@.len(),
            start + joint_row(nodes@, map@) == out@ + joint_row(nodes@.skip(i as int), map@),
        decreases nodes@.len() - i,
    {
        let ghost before = out@;
        let ghost rest = nodes@.skip(i as int);
        assert(rest[0] == nodes@[i as int]);
        assert(rest.drop_first() =~= nodes@.skip(i + 1));
        if nodes[i].is_skin_joint {
            if let Some(node) = map.get(nodes[i].gltf_node_index as u128) {
                out.push(JointKey { node: *node, key: nodes[i].baked_transform_key });
            }
        }
        assert(out@ =~= before + joint_of(nodes@[i as int], map@));
        assert(decreases_to!(nodes@ => nodes@[i as int].children@));
        collect_joint_keys(&nodes[i].children, map, out);
        i += 1;
        assert(out@ + joint_row(nodes@.skip(i as int), map@) =~= before + joint_row(rest, map@));
    }
    assert(joint_row(nodes@.skip(i as int), map@) =~= seq![]);
    assert(out@ =~= start + joint_row(nodes@, map@));
}

fn record_rest(rest: &mut Table<Trs>, nodes: &Vec<Node>, joints: &Vec<JointKey>)
    ensures
        final(rest)@ == rest_recorded(old(rest)@, forest(nodes@), joints@),
{
    let ghost m = rest@;
    let mut i: usize = 0;
    while i < joints.len()
        invariant
            i <= joints@.len(),
            rest@ == rest_recorded(m, forest(nodes@), joints@.take(i as int)),
        decreases joints@.len() - i,
    {
        let id = joints[i].node;
        if let Some(n) = find_by_id(nodes, id) {
            rest.insert(id.0, n.data.transform);
        }
        i += 1;
        assert(joints@.take(i as int).drop_last() =~= joints@.take(i - 1));
    }
    assert(joints@.take(i as int) =~= joints@);
}

/// Adds the assets of the textures. Hands back the rows that were put in.
fn add_textures(assets: &mut Table<AssetEntry>, texs: &Vec<ImportTexture>, base: u128) -> (r: (
    Vec<AssetId>,
    Ghost<Seq<(u128, AssetEntry)>>,
))
    ensures
        final(assets)@ == all_put(old(assets)@, r.1@),
        r.0@ == texture_ids(base, texs@.len()),
        r.1@.len() == texs@.len(),
        forall|i: int|
            0 <= i < texs@.len() ==> (#[trigger] r.1@[i]).0 == texture_id(base, i as nat).0
                && is_texture_entry(r.1@[i].1, texture_rows(texs@)[i]),
{
    let ghost m = assets@;
    let ghost mut rows: Seq<(u128, AssetEntry)> = Seq::empty();
    let mut out: Vec<AssetId> = Vec::new();
    let first_id = id_after(base, TEXTURE_PLACE);
    let mut i: usize = 0;
    while i < texs.len()
        invariant
            i <= texs@.len(),
            first_id == after(base, TEXTURE_PLACE as nat),
            assets@ == all_put(m, rows),
            rows.len() == i,
            out@ == texture_ids(base, i as nat),
            forall|j: int|
                0 <= j < i ==> (#[trigger] rows[j]).0 == texture_id(base, j as nat).0
                    && is_texture_entry(rows[j].1, texture_rows(texs@)[j]),
        decreases texs@.len() - i,
    {
        let id = AssetId(id_after(first_id, i as u128));
        let e = texture_entry(&texs[i]);
        proof {
            lemma_after(base, TEXTURE_PLACE as nat, i as nat);
            lemma_put_one(m, rows, id.0, e);
            rows = rows.push((id.0, e));
        }
        assets.insert(id.0, e);
        out.push(id);
        i += 1;
        assert(out@ =~= texture_ids(base, i as nat));
    }
    (out, Ghost(rows))
}

/// Registers the geometry that the nodes take for their own. Hands back the rows
/// that were put into the asset table.
fn add_meshes(store: &mut MeshStore, caps: &Vec<Capture>, source: AssetId) -> (r: Ghost<
    Seq<(u128, AssetEntry)>,
>)
    ensures
        final(store)@ == (StoreView {
            assets: all_put(old(store)@.assets, r@),
            geometry: all_put(old(store)@.geometry, geometry_row(capture_views(caps@))),
        }),
        r@.len() == caps@.len(),
        forall|i: int|
            0 <= i < caps@.len() ==> (#[trigger] r@[i]).0 == caps@[i].node.0 && is_mesh_entry(
                r@[i].1,
                capture_views(caps@)[i],
                source,
            ),
{
    let ghost v = store@;
    let ghost all = geometry_row(capture_views(caps@));
    let ghost mut rows: Seq<(u128, AssetEntry)> = Seq::empty();
    let mut i: usize = 0;
    while i < caps.len()
        invariant
            i <= caps@.len(),
            all == geometry_row(capture_views(caps@)),
            store@ == (StoreView {
                assets: all_put(v.assets, rows),
                geometry: all_put(v.geometry, all.take(i as int)),
            }),
            rows.len() == i,
            forall|j: int|
                0 <= j < i ==> (#[trigger] rows[j]).0 == caps@[j].node.0 && is_mesh_entry(
                    rows[j].1,
                    capture_views(caps@)[j],
                    source,
                ),
        decreases caps@.len() - i,
    {
        let c = &caps[i];
        let id = mint_imported_mesh(
            store,
            c.node,
            &c.label,
            c.mesh.same(),
            c.tangents.clone(),
            source,
        );
        proof {
            let e = store@.assets[id.0];
            assert(is_mesh_entry(e, capture_views(caps@)[i as int], source));
            lemma_put_one(v.assets, rows, id.0, e);
            rows = rows.push((id.0, e));
            assert(all.take(i + 1).drop_last() =~= all.take(i as int));
            assert(all.take(i + 1).last() == all[i as int]);
        }
        i += 1;
    }
    assert(all.take(i as int) =~= all);
    Ghost(rows)
}

proof fn lemma_put_more<V>(m: Map<u128, V>, a: Seq<(u128, V)>, b: Seq<(u128, V)>)
    ensures
        all_put(m, a + b) == all_put(all_put(m, a), b),
    decreases b.len(),
{
    if b.len() == 0 {
        assert(a + b =~= a);
    } else {
        lemma_put_more(m, a, b.drop_last());
        assert((a + b).drop_last() =~= a + b.drop_last());
        assert((a + b).last() == b.last());
    }
}

fn list_roots(roots: &Vec<Node>) -> (r: Vec<ImportedRoot>)
    ensures
        r@.len() == roots@.len(),
        forall|i: int|
            0 <= i < r@.len() ==> (#[trigger] r@[i]).id == forest(roots@)[i].id && r@[i].name@
                == forest(roots@)[i].data.name@,
{
    let mut out: Vec<ImportedRoot> = Vec::new();
    let mut i: usize = 0;
    while i < roots.len()
        invariant
            i <= roots@.len(),
            out@.len() == i,
            forall|j: int|
                0 <= j < i ==> (#[trigger] out@[j]).id == forest(roots@)[j].id && out@[j].name@
                    == forest(roots@)[j].data.name@,
        decreases roots@.len() - i,
    {
        proof {
            lemma_model(roots@[i as int]);
        }
        out.push(ImportedRoot { id: roots[i].id, name: roots[i].data.name.clone() });
        i += 1;
    }
    out
}

/// Adds the materials of a model to the library: one for each that the file has,
/// and one more where a mesh has none.
fn grow_library(ms: &mut Vec<CustomMaterial>, imp: &ModelImport, base: u128) -> (r: (
    Vec<AssetId>,
    Vec<ImportTexture>,
    Option<AssetId>,
))
    ensures
        library_grown(old(ms)@, final(ms)@, *imp, base),
        r.0@ == material_ids(base, imp.materials@.len()),
        texture_rows(r.1@) == rows_through(imp.materials@, imp.images@, imp.materials@.len()),
        r.2 == if needs_default(imp.roots@) {
            Some(default_id(base))
        } else {
            None
        },
{
    let ghost had = ms@;
    let (mat_ids, textures) = import_materials(ms, &imp.materials, &imp.images, base);
    let default_mat = if any_lacks_material(&imp.roots) {
        let ghost was = ms@;
        let id = AssetId(id_after(id_after(base, FILE_PLACE), 1));
        proof {
            lemma_after(base, FILE_PLACE as nat, 1);
        }
        ms.push(default_material(id));
        proof {
            let n = had.len() as int;
            assert(ms@.take(n) =~= was.take(n));
            assert forall|i: int| 0 <= i < imp.materials@.len() implies #[trigger] ms@[n + i]
                == was[n + i] by {}
        }
        Some(id)
    } else {
        None
    };
    (mat_ids, textures, default_mat)
}

/// Brings a model into the project. Its materials join the library; its textures,
/// the file itself and its geometry become assets; its nodes stand at the top of
/// the scene, after what is there; its bones' rest poses are recorded, and its
/// animations become clips. `base` is a fresh id from which all others follow. A
/// model without nodes is refused.
pub fn finish_model_import(w: &mut Workspace, imp: ModelImport, base: u128) -> (r: Result<
    Imported,
    EditorError,
>)
    ensures
        match r {
            Err(e) => imp.roots@.len() == 0 && e == EditorError::EmptyModel && final(w)@ == old(w)@,
            Ok(done) => imp.roots@.len() > 0 && exists|
                ctx: ImportContext,
                rows: Seq<(u128, AssetEntry)>,
            |
                #[trigger] import_step(old(w)@, imp, base, ctx, rows, final(w)@) && reports(
                    old(w)@,
                    imp,
                    base,
                    ctx,
                    final(w)@,
                    done,
                ),
        },
{
    if imp.roots.len() == 0 {
        return Err(EditorError::EmptyModel);
    }
    let ghost v = w@;
    let ghost name = imp.display_name@;
    let (mat_ids, textures, default_mat) = grow_library(&mut w.library.materials, &imp, base);
    let (img_ids, texture_put) = add_textures(&mut w.store.assets, &textures, base);
    let source = AssetId(id_after(base, FILE_PLACE));
    let mut entry = AssetEntry::new(AssetSource::Filename(imp.display_name.clone()));
    entry.gltf_material_asset_ids = List::from_vec(copy_ids(&mat_ids));
    entry.gltf_image_asset_ids = List::from_vec(img_ids);
    let ghost file_put = (source.0, entry);
    w.store.assets.insert(source.0, entry);
    let map = map_nodes(&imp.roots, base);
    let joints = assemble_skin_joints(&imp.roots, &map, &imp.rig);
    let mut joint_keys: Vec<JointKey> = Vec::new();
    collect_joint_keys(&imp.roots, &map, &mut joint_keys);
    assert(joint_keys@ =~= joint_row(imp.roots@, map@));
    let ctx = ImportContext {
        source,
        mat_ids: copy_ids(&mat_ids),
        default_mat,
        meshes: imp.meshes,
        rig: imp.rig,
        joints: List::from_vec(joints),
    };
    let (roots, brought) = build_editor_subtree(
        &imp.roots,
        &ctx,
        &w.library.materials,
        base,
        &imp.display_name,
    );
    let mesh_put = add_meshes(&mut w.store, &brought.captures, source);
    let root_row = list_roots(&roots);
    let instances = collect_ids(&roots);
    let ghost trees = forest(roots@);
    let mut more = roots;
    w.nodes.append(&mut more);
    record_rest(&mut w.rest, &w.nodes, &joint_keys);
    let clips = import_animations(
        &mut w.timeline,
        &imp.animations,
        &map,
        &imp.display_name,
        base,
    );
    w.dirty = true;
    w.scene_revision = count64(w.scene_revision, true);
    let done = Imported {
        source,
        roots: root_row,
        node_count: map.len(),
        materials: mat_ids,
        skin_joints: joint_keys.len(),
        clips,
        textures,
        poses: brought.poses,
        joints: joint_keys,
        instances,
    };
    proof {
        let n = v.nodes.len() as int;
        assert(w@.nodes =~= v.nodes + trees);
        assert(w@.nodes.take(n) =~= v.nodes);
        assert(w@.nodes.skip(n) =~= trees);
        let t = texture_put@.len() as int;
        let rows = texture_put@.push(file_put) + mesh_put@;
        lemma_put_one(v.store.assets, texture_put@, file_put.0, file_put.1);
        lemma_put_more(v.store.assets, texture_put@.push(file_put), mesh_put@);
        let texs = rows_through(imp.materials@, imp.images@, imp.materials@.len());
        let caps = row_captures(imp.roots@, ctx, w@.library.materials, base, Some(name));
        assert(is_entry_row(rows, texs, name, imp.materials@.len(), caps, base)) by {
            assert forall|j: int| t < j < rows.len() implies (#[trigger] rows[j]).0 == caps[j - t
                - 1].node.0 && is_mesh_entry(rows[j].1, caps[j - t - 1], file_id(base)) by {
                assert(rows[j] == mesh_put@[j - t - 1]);
                assert(brought.captures@.len() == caps.len());
                assert(caps[j - t - 1] == capture_views(brought.captures@)[j - t - 1]);
            }
        }
        assert forall|i: int| 0 <= i < imp.roots@.len() implies mirrors(
            #[trigger] imp.roots@[i],
            ctx,
            w@.library.materials,
            row_id(imp.roots@, base, i),
            Some(name),
            w@.nodes[n + i],
        ) by {
            assert(w@.nodes[n + i] == trees[i]);
        }
        assert forall|i: int| 0 <= i < done.roots@.len() implies (#[trigger] done.roots@[i]).id
            == w@.nodes[n + i].id && done.roots@[i].name@ == w@.nodes[n + i].data.name@ by {
            assert(w@.nodes[n + i] == trees[i]);
        }
        assert(import_step(v, imp, base, ctx, rows, w@));
        assert(reports(v, imp, base, ctx, w@, done));
    }
    Ok(done)
}

fn copy_ids(row: &Vec<AssetId>) -> (r: Vec<AssetId>)
    ensures
        r@ == row@,
{
    let mut out: Vec<AssetId> = Vec::new();
    let mut i: usize = 0;
    while i < row.len()
        invariant
            i <= row@.len(),
            out@ == row@.take(i as int),
        decreases row@.len() - i,
    {
        out.push(row[i]);
        i += 1;
        assert(out@ =~= row@.take(i as int));
    }
    assert(row@.take(i as int) =~= row@);
    out
}

} // verus!
