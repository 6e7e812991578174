//! What holds of the edits of meshes and of what is told of them: each value belongs to
//! the vertex, the layer or the setting that it is given for.
use crate::assets::{MeshBase, MeshData, MeshDef, ModifierStack, VertexOverrides};
use crate::collider_wire::HullEdge;
use crate::errors::EditorError;
use crate::ids::{snapshot_id, AssetId};
use crate::mesh_edit::{
    all_of, author_step, bake_one_step, bake_row_step, bake_run, bakes, layer_step, layered,
    mesh_def, mesh_step, moved_points, stack_step, with_snapshot, MeshCommand, Pick, StoreView,
};
use crate::mesh_query::{
    band, base_name, layout_edges, layout_lines, reports_layers, reports_selection,
    reports_vertices, selector_of, triangles_of, uv_set_of, vertex_row, with_edge, within_mesh,
    MeshLayers, ReportStyle, SelectionReport, Selector, Triangle, VertexPredicate, VertexReport,
};
use crate::selections::{resolved, SelectionsView};
use crate::skin::{
    bytes_of, entry_at, entry_bytes, overwritten, reweighted, vertex_within, word_at, SkinView,
    SkinWeightEntry,
};
use crate::table::{zipped, Table};
use crate::values::{Vec2, Vec3};
use vstd::prelude::*;

verus! {

/// Whether a map has values beside their indices, and is otherwise as it was.
pub open spec fn has_beside<V>(
    a: Map<u32, V>,
    indices: Seq<u32>,
    values: Seq<V>,
    b: Map<u32, V>,
) -> bool {
    &&& forall|i: int|
        0 <= i < indices.len() && i < values.len() ==> b.contains_key(#[trigger] indices[i])
            && b[indices[i]] == values[i]
    &&& forall|k: u32|
        (forall|i: int| 0 <= i < indices.len() && i < values.len() ==> #[trigger] indices[i] != k)
            ==> #[trigger] b.contains_key(k) == a.contains_key(k) && (a.contains_key(k) ==> b[k]
            == a[k])
}

proof fn lemma_zipped<V>(m: Map<u32, V>, indices: Seq<u32>, values: Seq<V>)
    requires
        indices.no_duplicates(),
    ensures
        has_beside(m, indices, values, zipped(m, indices, values)),
    decreases indices.len(),
{
    if indices.len() > 0 && values.len() > 0 {
        let m2 = m.insert(indices[0], values[0]);
        let is = indices.drop_first();
        let vs = values.drop_first();
        assert forall|i: int, j: int| 0 <= i < is.len() && 0 <= j < is.len() && i != j implies is[i]
            != is[j] by {
            assert(is[i] == indices[i + 1] && is[j] == indices[j + 1]);
        }
        lemma_zipped(m2, is, vs);
        let b = zipped(m, indices, values);
        assert(b == zipped(m2, is, vs));
        assert forall|i: int| 0 <= i < indices.len() && i < values.len() implies b.contains_key(
            #[trigger] indices[i],
        ) && b[indices[i]] == values[i] by {
            if i > 0 {
                assert(is[i - 1] == indices[i]);
            } else {
                assert forall|j: int| 0 <= j < is.len() && j < vs.len() implies #[trigger] is[j]
                    != indices[0] by {
                    assert(is[j] == indices[j + 1]);
                }
                assert(b.contains_key(indices[0]) == m2.contains_key(indices[0]));
            }
        }
        assert forall|k: u32|
            (forall|i: int|
                0 <= i < indices.len() && i < values.len() ==> #[trigger] indices[i] != k) implies
            #[trigger] b.contains_key(k) == m.contains_key(k) && (m.contains_key(k) ==> b[k]
            == m[k]) by {
            assert(indices[0] != k);
            assert forall|j: int| 0 <= j < is.len() && j < vs.len() implies #[trigger] is[j]
                != k by {
                assert(is[j] == indices[j + 1]);
            }
            assert(b.contains_key(k) == m2.contains_key(k));
        }
    }
}

/// An edit of vertices writes its values into its own layer: points beside their
/// vertices, one color or one normal for all of them, texture coordinates beside their
/// vertices. The other layers, and the other vertices, stay.
pub proof fn law_vertex_edit_writes_its_layer(
    d: VertexOverrides,
    cmd: MeshCommand,
    picked: Seq<u32>,
    layer: VertexOverrides,
)
    requires
        layered(d, cmd, picked, layer),
        picked.no_duplicates(),
    ensures
        match cmd {
            MeshCommand::SetVertexPositions { positions, .. } => {
                &&& has_beside(d.positions@, picked, positions@, layer.positions@)
                &&& layer.colors == d.colors && layer.normals == d.normals && layer.uvs == d.uvs
            },
            MeshCommand::SetVertexUvs { uvs, .. } => {
                &&& has_beside(d.uvs@, picked, uvs@, layer.uvs@)
                &&& layer.colors == d.colors && layer.normals == d.normals && layer.positions
                    == d.positions
            },
            MeshCommand::PaintVertexColors { color, .. } => {
                &&& forall|k: u32|
                    picked.contains(k) ==> #[trigger] layer.colors@.contains_key(k)
                        && layer.colors@[k] == color
                &&& forall|k: u32|
                    !picked.contains(k) ==> #[trigger] layer.colors@.contains_key(k)
                        == d.colors@.contains_key(k) && (d.colors@.contains_key(k)
                        ==> layer.colors@[k] == d.colors@[k])
                &&& layer.positions == d.positions && layer.normals == d.normals && layer.uvs
                    == d.uvs
            },
            MeshCommand::SetVertexNormals { normal, .. } => {
                &&& forall|k: u32|
                    picked.contains(k) ==> #[trigger] layer.normals@.contains_key(k)
                        && layer.normals@[k] == normal
                &&& forall|k: u32|
                    !picked.contains(k) ==> #[trigger] layer.normals@.contains_key(k)
                        == d.normals@.contains_key(k) && (d.normals@.contains_key(k)
                        ==> layer.normals@[k] == d.normals@[k])
                &&& layer.positions == d.positions && layer.colors == d.colors && layer.uvs
                    == d.uvs
            },
            MeshCommand::SetVertexOverrides { overrides, .. } => layer == overrides,
            _ => false,
        },
{
    match cmd {
        MeshCommand::SetVertexPositions { positions, .. } => {
            lemma_zipped(d.positions@, picked, positions@);
        },
        MeshCommand::SetVertexUvs { uvs, .. } => {
            lemma_zipped(d.uvs@, picked, uvs@);
        },
        _ => {},
    }
}

/// A vertex that moves is recorded where it moves to; one that stays is left alone.
pub proof fn law_moved_points_are_recorded(
    m: Map<u32, Vec3>,
    from: Seq<Vec3>,
    to: Seq<Vec3>,
    k: u32,
)
    ensures
        ({
            let r = moved_points(m, from, to);
            if k < from.len() && k < to.len() && !from[k as int].equals(to[k as int]) {
                r.contains_key(k) && r[k] == to[k as int]
            } else {
                r.contains_key(k) == m.contains_key(k) && (m.contains_key(k) ==> r[k] == m[k])
            }
        }),
    decreases from.len(),
{
    if from.len() > 0 {
        law_moved_points_are_recorded(m, from.drop_last(), to, k);
        if k < from.len() - 1 {
            assert(from.drop_last()[k as int] == from[k as int]);
        }
    }
}

/// Whether the recipe of a mesh is another, from the same base or from the copy of the
/// mesh that is kept in place of itself.
pub open spec fn recipe_is(
    v: StoreView,
    mesh: AssetId,
    modifiers: Seq<crate::assets::Modifier>,
    w: StoreView,
) -> bool {
    let a = mesh_def(v, mesh)->0;
    let b = mesh_def(w, mesh)->0;
    &&& mesh_def(w, mesh) is Some
    &&& b.stack.modifiers@ == modifiers
    &&& b.stack.base == a.stack.base || (a.stack.base == MeshBase::Captured(mesh) && b.stack.base
        == MeshBase::Captured(snapshot_id(mesh)))
    &&& b.label == a.label
    &&& b.source == a.source
    &&& b.editable
    &&& b.overrides == a.overrides
    &&& forall|k: u128|
        k != mesh.0 ==> (#[trigger] w.assets.contains_key(k)) == v.assets.contains_key(k)
            && w.assets[k] == v.assets[k]
}

/// An edit of one modifier changes the recipe by that modifier: it is added at the end,
/// put in the place of another, or taken out. What is painted on the mesh stays.
pub proof fn law_modifier_edit_changes_one_modifier<
    F: Fn(&ModifierStack, &VertexOverrides, &Table<MeshData>) -> MeshData,
>(
    eval: F,
    sel: SelectionsView,
    v: StoreView,
    cmd: MeshCommand,
    w: StoreView,
    r: Result<Seq<MeshCommand>, EditorError>,
    mesh: AssetId,
)
    requires
        mesh_step(eval, sel, v, cmd, w, r),
        mesh_def(v, mesh) is Some,
    ensures
        cmd matches MeshCommand::AddModifier { mesh: m, modifier } ==> (m == mesh ==> r is Ok
            && recipe_is(v, mesh, mesh_def(v, mesh)->0.stack.modifiers@.push(modifier), w)),
        cmd matches MeshCommand::SetModifier { mesh: m, index, modifier } ==> (m == mesh ==> if index
            < mesh_def(v, mesh)->0.stack.modifiers@.len() {
            r is Ok && recipe_is(
                v,
                mesh,
                mesh_def(v, mesh)->0.stack.modifiers@.update(index as int, modifier),
                w,
            )
        } else {
            r is Err && w == v
        }),
        cmd matches MeshCommand::RemoveModifier { mesh: m, index } ==> (m == mesh ==> if index
            < mesh_def(v, mesh)->0.stack.modifiers@.len() {
            r is Ok && recipe_is(
                v,
                mesh,
                mesh_def(v, mesh)->0.stack.modifiers@.remove(index as int),
                w,
            )
        } else {
            r is Err && w == v
        }),
{
}

/// The mesh whose recipe or layer an edit gives.
pub open spec fn reshaped(cmd: MeshCommand) -> Option<AssetId> {
    match cmd {
        MeshCommand::SetMeshModifiers { mesh, .. } => Some(mesh),
        MeshCommand::AddModifier { mesh, .. } => Some(mesh),
        MeshCommand::SetModifier { mesh, .. } => Some(mesh),
        MeshCommand::RemoveModifier { mesh, .. } => Some(mesh),
        MeshCommand::SetVertexPositions { mesh, .. } => Some(mesh),
        MeshCommand::PaintVertexColors { mesh, .. } => Some(mesh),
        MeshCommand::SetVertexNormals { mesh, .. } => Some(mesh),
        MeshCommand::SetVertexUvs { mesh, .. } => Some(mesh),
        MeshCommand::SetVertexOverrides { mesh, .. } => Some(mesh),
        _ => None,
    }
}

/// Whether the geometry of a mesh is what its recipe makes of the other geometry, with
/// its layer painted over it.
pub open spec fn shows_its_recipe<
    F: Fn(&ModifierStack, &VertexOverrides, &Table<MeshData>) -> MeshData,
>(eval: F, w: StoreView, mesh: AssetId) -> bool {
    exists|t: Table<MeshData>| #[trigger]
        call_ensures(
            eval,
            (&mesh_def(w, mesh)->0.stack, &mesh_def(w, mesh)->0.overrides, &t),
            w.geometry[mesh.0],
        ) && t@.remove(mesh.0) == w.geometry.remove(mesh.0)
}

proof fn lemma_shown<F: Fn(&ModifierStack, &VertexOverrides, &Table<MeshData>) -> MeshData>(
    eval: F,
    geometry: Map<u128, MeshData>,
    w: StoreView,
    mesh: AssetId,
)
    requires
        w.geometry == geometry.insert(mesh.0, w.geometry[mesh.0]),
        bakes(
            eval,
            mesh_def(w, mesh)->0.stack,
            mesh_def(w, mesh)->0.overrides,
            geometry,
            w.geometry[mesh.0],
        ),
    ensures
        shows_its_recipe(eval, w, mesh),
{
    let d = mesh_def(w, mesh)->0;
    let t = choose|t: Table<MeshData>| #[trigger]
        call_ensures(eval, (&d.stack, &d.overrides, &t), w.geometry[mesh.0]) && t@ == geometry;
    assert(t@.remove(mesh.0) =~= w.geometry.remove(mesh.0));
}

/// After an edit of the recipe or of the layer of a mesh its geometry is what the
/// definition that it then has makes of the other geometry; the geometry and the assets
/// of the others stay, but for the snapshot that the recipe reads. An edit of the layer
/// leaves a recipe that is nothing but the captured geometry.
pub proof fn law_mesh_shows_its_recipe<
    F: Fn(&ModifierStack, &VertexOverrides, &Table<MeshData>) -> MeshData,
>(
    eval: F,
    sel: SelectionsView,
    v: StoreView,
    cmd: MeshCommand,
    w: StoreView,
    inv: Seq<MeshCommand>,
    mesh: AssetId,
    k: u128,
)
    requires
        mesh_step(eval, sel, v, cmd, w, Ok(inv)),
        reshaped(cmd) == Some(mesh),
        mesh_def(v, mesh) is Some,
    ensures
        mesh_def(w, mesh) is Some,
        w.geometry.contains_key(mesh.0),
        shows_its_recipe(eval, w, mesh),
        k != mesh.0 ==> w.assets.contains_key(k) == v.assets.contains_key(k) && w.assets[k]
            == v.assets[k],
        k != mesh.0 && k != snapshot_id(mesh).0 ==> w.geometry.contains_key(k)
            == v.geometry.contains_key(k) && w.geometry[k] == v.geometry[k],
        cmd is SetVertexPositions || cmd is PaintVertexColors || cmd is SetVertexNormals
            || cmd is SetVertexUvs || cmd is SetVertexOverrides ==> {
            &&& mesh_def(w, mesh)->0.stack.base == MeshBase::Captured(mesh)
            &&& mesh_def(w, mesh)->0.stack.modifiers@.len() == 0
        },
{
    let layer = mesh_def(w, mesh)->0.overrides;
    if cmd is SetMeshModifiers || cmd is AddModifier || cmd is SetModifier
        || cmd is RemoveModifier {
        let stack = choose|stack: ModifierStack| #[trigger] stack_step(eval, v, mesh, stack, w);
        assert(stack_step(eval, v, mesh, stack, w));
        lemma_shown(eval, with_snapshot(v.geometry, stack, mesh), w, mesh);
    } else {
        let m = choose|m: StoreView| #[trigger]
            author_step(eval, v, mesh, m) && layer_step(eval, m, mesh, layer, w);
        assert(author_step(eval, v, mesh, m) && layer_step(eval, m, mesh, layer, w));
        lemma_shown(eval, m.geometry, w, mesh);
    }
}

/// The pick that an edit of vertices goes by.
pub open spec fn picked_by(cmd: MeshCommand) -> Option<Pick> {
    match cmd {
        MeshCommand::SetVertexPositions { pick, .. } => Some(pick),
        MeshCommand::PaintVertexColors { pick, .. } => Some(pick),
        MeshCommand::SetVertexNormals { pick, .. } => Some(pick),
        MeshCommand::SetVertexUvs { pick, .. } => Some(pick),
        _ => None,
    }
}

/// An edit of vertices paints over what its mesh had, at the vertices that its pick
/// names; a falloff that moves the vertices of captured geometry records those that
/// move; and a whole layer that is given takes the place of the former.
pub proof fn law_vertex_edit_reaches_its_pick<
    F: Fn(&ModifierStack, &VertexOverrides, &Table<MeshData>) -> MeshData,
>(
    eval: F,
    sel: SelectionsView,
    v: StoreView,
    cmd: MeshCommand,
    w: StoreView,
    r: Result<Seq<MeshCommand>, EditorError>,
    mesh: AssetId,
    d: MeshDef,
)
    requires
        mesh_step(eval, sel, v, cmd, w, r),
        mesh_def(v, mesh) == Some(d),
    ensures
        reshaped(cmd) == Some(mesh) && picked_by(cmd) is Some ==> {
            let picked = resolved(sel, picked_by(cmd)->0.selection, picked_by(cmd)->0.indices@);
            &&& picked is Err ==> w == v && r is Err
            &&& picked is Ok ==> r is Ok && layered(
                d.overrides,
                cmd,
                picked->Ok_0,
                mesh_def(w, mesh)->0.overrides,
            )
        },
        cmd matches MeshCommand::SetVertexOverrides { mesh: m, overrides } ==> (m == mesh
            ==> mesh_def(w, mesh)->0.overrides == overrides),
        cmd matches MeshCommand::SoftTransformVertices { mesh: m, pick, targets } ==> (m == mesh
            && r is Ok && d.stack.base == MeshBase::Captured(mesh) && d.stack.modifiers@.len() == 0
            && v.geometry.contains_key(mesh.0) ==> {
            let layer = mesh_def(w, mesh)->0.overrides;
            &&& layer.positions@ == moved_points(
                d.overrides.positions@,
                v.geometry[mesh.0].positions@,
                targets@,
            )
            &&& layer.colors == d.overrides.colors
            &&& layer.normals == d.overrides.normals
            &&& layer.uvs == d.overrides.uvs
            &&& shows_its_recipe(eval, w, mesh)
        }),
{
    if cmd is SoftTransformVertices && cmd->SoftTransformVertices_mesh == mesh && r is Ok
        && d.stack.is_bare_capture(mesh) && v.geometry.contains_key(mesh.0) {
        assert(author_step(eval, v, mesh, v));
        assert(layer_step(eval, v, mesh, mesh_def(w, mesh)->0.overrides, w));
        lemma_shown(eval, v.geometry, w, mesh);
    }
}

/// A mesh that is collapsed becomes the geometry that its recipe makes, without the
/// layer, which stays as it is; one that is captured already, and one without geometry,
/// stays.
pub proof fn law_collapsed_mesh_is_its_recipe_made<
    F: Fn(&ModifierStack, &VertexOverrides, &Table<MeshData>) -> MeshData,
>(
    eval: F,
    sel: SelectionsView,
    v: StoreView,
    mesh: AssetId,
    w: StoreView,
    r: Result<Seq<MeshCommand>, EditorError>,
    d: MeshDef,
)
    requires
        mesh_step(eval, sel, v, MeshCommand::CollapseMeshStack { mesh }, w, r),
        mesh_def(v, mesh) == Some(d),
    ensures
        r is Ok,
        v.geometry.contains_key(mesh.0) && (d.stack.modifiers@.len() > 0 || d.stack.base !is Captured)
            ==> {
            &&& mesh_def(w, mesh) is Some
            &&& mesh_def(w, mesh)->0.stack.base == MeshBase::Captured(mesh)
            &&& mesh_def(w, mesh)->0.stack.modifiers@.len() == 0
            &&& mesh_def(w, mesh)->0.overrides == d.overrides
            &&& w.geometry.remove(mesh.0) == v.geometry.remove(mesh.0)
            &&& exists|t: Table<MeshData>, none: VertexOverrides|
                #[trigger] call_ensures(eval, (&d.stack, &none, &t), w.geometry[mesh.0]) && t@
                    == v.geometry && none.positions@.len() == 0 && none.colors@.len() == 0
                    && none.normals@.len() == 0 && none.uvs@.len() == 0
        },
        !v.geometry.contains_key(mesh.0) || (d.stack.modifiers@.len() == 0
            && d.stack.base is Captured) ==> w == v && r->Ok_0.len() == 0,
{
    if v.geometry.contains_key(mesh.0) && (d.stack.modifiers@.len() > 0 || d.stack.base !is Captured) {
        let none = choose|none: VertexOverrides|
            none.blank() && #[trigger] bakes(eval, d.stack, none, v.geometry, w.geometry[mesh.0]);
        let t = choose|t: Table<MeshData>| #[trigger]
            call_ensures(eval, (&d.stack, &none, &t), w.geometry[mesh.0]) && t@ == v.geometry;
        assert(call_ensures(eval, (&d.stack, &none, &t), w.geometry[mesh.0]) && t@ == v.geometry);
        assert(w.geometry.remove(mesh.0) =~= v.geometry.remove(mesh.0));
    }
}

/// Whether a mesh is nothing but its captured geometry, with a layer.
spec fn is_capture(v: StoreView, mesh: AssetId, layer: VertexOverrides) -> bool {
    &&& mesh_def(v, mesh) is Some
    &&& mesh_def(v, mesh)->0.stack.base == MeshBase::Captured(mesh)
    &&& mesh_def(v, mesh)->0.stack.modifiers@.len() == 0
    &&& mesh_def(v, mesh)->0.overrides == layer
}

proof fn lemma_bake_one<F: Fn(&ModifierStack, &VertexOverrides, &Table<MeshData>) -> MeshData>(
    eval: F,
    v: StoreView,
    one: AssetId,
    w: StoreView,
    inv: Seq<MeshCommand>,
    mesh: AssetId,
)
    requires
        bake_one_step(eval, v, one, w, inv),
        mesh_def(v, mesh) is Some,
    ensures
        mesh_def(w, mesh) is Some,
        mesh_def(w, mesh)->0.overrides == mesh_def(v, mesh)->0.overrides,
        one == mesh ==> is_capture(w, mesh, mesh_def(v, mesh)->0.overrides),
        one != mesh ==> mesh_def(w, mesh) == mesh_def(v, mesh),
{
    if mesh_def(v, one) is Some && !mesh_def(v, one)->0.stack.is_bare_capture(one) {
        let d = mesh_def(v, one)->0;
        let m = choose|m: StoreView| #[trigger]
            author_step(eval, v, one, m) && layer_step(eval, m, one, d.overrides, w);
        assert(author_step(eval, v, one, m) && layer_step(eval, m, one, d.overrides, w));
    }
}

proof fn lemma_bake_run<F: Fn(&ModifierStack, &VertexOverrides, &Table<MeshData>) -> MeshData>(
    eval: F,
    row: Seq<u128>,
    states: Seq<StoreView>,
    invs: Seq<Seq<MeshCommand>>,
    mesh: AssetId,
    n: int,
)
    requires
        bake_run(eval, row, states, invs),
        row.no_duplicates(),
        mesh_def(states[0], mesh) is Some,
        0 <= n <= row.len(),
    ensures
        mesh_def(states[n], mesh) is Some,
        mesh_def(states[n], mesh)->0.overrides == mesh_def(states[0], mesh)->0.overrides,
        (exists|i: int| 0 <= i < n && #[trigger] row[i] == mesh.0) ==> is_capture(
            states[n],
            mesh,
            mesh_def(states[0], mesh)->0.overrides,
        ),
    decreases n,
{
    if n > 0 {
        lemma_bake_run(eval, row, states, invs, mesh, n - 1);
        assert(bake_one_step(
            eval,
            states[n - 1],
            AssetId(row[n - 1]),
            states[n - 1 + 1],
            invs[n - 1],
        ));
        lemma_bake_one(eval, states[n - 1], AssetId(row[n - 1]), states[n], invs[n - 1], mesh);
    }
}

/// When everything is baked, every mesh is nothing but its captured geometry, and what
/// is painted over it stays.
pub proof fn law_everything_is_baked<
    F: Fn(&ModifierStack, &VertexOverrides, &Table<MeshData>) -> MeshData,
>(
    eval: F,
    sel: SelectionsView,
    v: StoreView,
    w: StoreView,
    r: Result<Seq<MeshCommand>, EditorError>,
    mesh: AssetId,
)
    requires
        mesh_step(eval, sel, v, MeshCommand::BakeAll, w, r),
        mesh_def(v, mesh) is Some,
    ensures
        r is Ok,
        mesh_def(w, mesh) is Some,
        mesh_def(w, mesh)->0.stack.base == MeshBase::Captured(mesh),
        mesh_def(w, mesh)->0.stack.modifiers@.len() == 0,
        mesh_def(w, mesh)->0.overrides == mesh_def(v, mesh)->0.overrides,
{
    let inv = r->Ok_0;
    let row = choose|row: Seq<u128>|
        row.no_duplicates() && row.to_set() == v.assets.dom() && #[trigger] bake_row_step(
            eval,
            v,
            row,
            w,
            inv,
        );
    let (states, invs) = choose|states: Seq<StoreView>, invs: Seq<Seq<MeshCommand>>| #[trigger]
        bake_run(eval, row, states, invs) && states[0] == v && states.last() == w && inv
            == all_of(invs);
    assert(row.to_set().contains(mesh.0));
    assert(row.contains(mesh.0));
    lemma_bake_run(eval, row, states, invs, mesh, row.len() as int);
}

/// Geometry that is set is kept as it is given, where every triangle is one of its
/// vertices and it is not empty unless that is asked for; else it is refused.
pub proof fn law_geometry_is_kept_as_given<
    F: Fn(&ModifierStack, &VertexOverrides, &Table<MeshData>) -> MeshData,
>(
    eval: F,
    sel: SelectionsView,
    v: StoreView,
    mesh: AssetId,
    data: MeshData,
    allow_empty: bool,
    w: StoreView,
    r: Result<Seq<MeshCommand>, EditorError>,
    k: u128,
)
    requires
        mesh_step(eval, sel, v, MeshCommand::SetMeshData { mesh, data, allow_empty }, w, r),
    ensures
        ({
            let whole = data.indices@.len() % 3 == 0 && forall|i: int|
                0 <= i < data.indices@.len() ==> (#[trigger] data.indices@[i])
                    < data.positions@.len();
            &&& r is Ok <==> (whole && (allow_empty || data.positions@.len() > 0))
            &&& r is Ok ==> w.geometry.contains_key(mesh.0) && w.geometry[mesh.0] == data
            &&& r is Err ==> w == v
            &&& w.assets == v.assets
            &&& k != mesh.0 ==> w.geometry.contains_key(k) == v.geometry.contains_key(k)
                && w.geometry[k] == v.geometry[k]
        }),
{
}

/// A pick is the selection that is kept under its handle, or the vertices that are
/// given; a handle that nothing is kept under is refused.
pub proof fn law_pick_is_what_it_names(s: SelectionsView, selection: Option<u32>, indices: Seq<u32>)
    ensures
        selection is None ==> resolved(s, selection, indices) == Ok::<Seq<u32>, EditorError>(
            indices,
        ),
        selection matches Some(id) ==> if s.rows.contains_key(id as u128) {
            resolved(s, selection, indices) == Ok::<Seq<u32>, EditorError>(s.rows[id as u128])
        } else {
            resolved(s, selection, indices) is Err
        },
{
}

/// A question for vertices is asked with its own numbers; the two sides of a value along
/// an axis are told apart.
pub proof fn law_question_is_asked_with_its_numbers(p: VertexPredicate)
    ensures
        match (p, selector_of(p)) {
            (
                VertexPredicate::ConnectedToSeed { seed: a },
                Selector::ConnectedComponentOf { seed: b },
            ) => a == b,
            (
                VertexPredicate::NormalDir { dir: a, threshold: s },
                Selector::ByNormalDir { dir: b, threshold: t },
            ) => a == b && s == t,
            (
                VertexPredicate::AxisGreater { axis: a, value: s },
                Selector::ByAxis { axis: b, greater, value: t },
            ) => a == b && greater && s == t,
            (
                VertexPredicate::AxisLess { axis: a, value: s },
                Selector::ByAxis { axis: b, greater, value: t },
            ) => a == b && !greater && s == t,
            (
                VertexPredicate::TopPercent { axis: a, percent: s },
                Selector::TopPercentAxis { axis: b, percent: t, clamps },
            ) => a == b && s == t && (s.bits <= 0x3F80_0000 ==> !clamps) && (0x3F80_0000 < s.bits
                <= 0x7F80_0000 ==> clamps),
            (
                VertexPredicate::TopCount { axis: a, count: s },
                Selector::TopCountAxis { axis: b, count: t },
            ) => a == b && s == t,
            (
                VertexPredicate::WithinRadius { center: a, radius: s },
                Selector::WithinRadius { center: b, radius: t },
            ) => a == b && s == t,
            (
                VertexPredicate::WithinAabb { min: a, max: s },
                Selector::WithinAabb { min: b, max: t },
            ) => a == b && s == t,
            _ => false,
        },
{
}

/// A selection that is to be kept is kept under a handle, and found under it; one that
/// is not is told page by page, with how many there are.
pub proof fn law_selection_is_told_or_kept(
    s: SelectionsView,
    found: Seq<u32>,
    style: ReportStyle,
    t: SelectionsView,
    r: SelectionReport,
)
    requires
        reports_selection(s, found, style, t, r),
    ensures
        r.count == found.len(),
        style.store ==> r.id is Some && r.page is None && resolved(
            t,
            r.id,
            Seq::empty(),
        ) == Ok::<Seq<u32>, EditorError>(found) && t.next != s.next,
        !style.store ==> r.id is None && t == s,
        !style.store && style.count_only ==> r.page is None,
        !style.store && !style.count_only && style.offset is None && style.limit is None
            ==> (r.page matches Some(p) && p.offset == 0 && p.indices@ == found),
{
    if !style.store && !style.count_only && style.offset is None && style.limit is None {
        assert(r.page->0.indices@ =~= found);
    }
}

/// What is told of a vertex is its own point, normal, color and texture coordinates,
/// where the mesh has them, and which of them are painted.
pub proof fn law_vertex_is_told_as_it_is(d: MeshData, ov: Option<VertexOverrides>, i: u32)
    ensures
        ({
            let r = vertex_row(d, ov, i);
            &&& r.index == i
            &&& (r.position is Some) == (i < d.positions@.len())
            &&& r.position matches Some(p) ==> p == d.positions@[i as int]
            &&& (r.uv is Some) == (i < d.uvs@.len())
            &&& r.uv matches Some(u) ==> u == d.uvs@[i as int]
            &&& (r.normal is Some) == (d.normals is Some && i < (d.normals->0)@.len())
            &&& r.normal matches Some(n) ==> n == (d.normals->0)@[i as int]
            &&& (r.color is Some) == (d.colors is Some && i < (d.colors->0)@.len())
            &&& r.color matches Some(c) ==> c == (d.colors->0)@[i as int]
            &&& (r.source is Some) == (ov is Some)
            &&& ov matches Some(o) ==> {
                &&& (r.source->0).position == o.positions@.contains_key(i)
                &&& (r.source->0).normal == o.normals@.contains_key(i)
                &&& (r.source->0).color == o.colors@.contains_key(i)
                &&& (r.source->0).uv == o.uvs@.contains_key(i)
            }
        }),
{
}

/// The vertices of a page are told in order, each by its own index.
pub proof fn law_vertices_are_told_in_order(
    d: MeshData,
    ov: Option<VertexOverrides>,
    target: Seq<u32>,
    r: VertexReport,
    i: int,
)
    requires
        reports_vertices(d, ov, target, None, None, r),
        0 <= i < target.len(),
    ensures
        r.vertices@.len() == target.len(),
        r.vertices@[i].index == target[i],
        r.selected == target.len(),
        r.vertex_count == d.positions@.len(),
{
    assert(crate::paging::paged(target, None, None) =~= target);
}

/// The corners of a triangle are three indices in a row, in order.
pub proof fn law_triangle_is_three_in_a_row(indices: Seq<u32>, k: int)
    requires
        0 <= k,
        3 * k + 2 < indices.len(),
    ensures
        triangles_of(indices).len() == indices.len() / 3,
        k < triangles_of(indices).len(),
        triangles_of(indices)[k].a == indices[3 * k],
        triangles_of(indices)[k].b == indices[3 * k + 1],
        triangles_of(indices)[k].c == indices[3 * k + 2],
{
}

/// What is told of the layers of a mesh is its own: its modifiers, and how many vertices
/// each layer paints.
pub proof fn law_layers_are_told_as_they_are(d: MeshDef, mesh: AssetId, r: MeshLayers)
    requires
        reports_layers(d, mesh, r),
    ensures
        r.mesh == mesh,
        r.modifiers == d.stack.modifiers,
        r.positions == d.overrides.positions@.dom().len(),
        r.colors == d.overrides.colors@.dom().len(),
        r.normals == d.overrides.normals@.dom().len(),
        r.uvs == d.overrides.uvs@.dom().len(),
        r.frozen_topology == (d.stack.modifiers@.len() == 0 && d.stack.base is Captured),
        !r.has_overrides ==> r.positions == 0 && r.colors == 0 && r.normals == 0 && r.uvs == 0,
{
}

/// Bases of different kinds have different names.
pub proof fn law_bases_are_told_apart(a: MeshBase, b: MeshBase)
    ensures
        base_name(a) == base_name(b) ==> match (a, b) {
            (MeshBase::Primitive(_), MeshBase::Primitive(_)) => true,
            (MeshBase::Lathe(_), MeshBase::Lathe(_)) => true,
            (MeshBase::Superquadric(_), MeshBase::Superquadric(_)) => true,
            (MeshBase::Sweep(_), MeshBase::Sweep(_)) => true,
            (MeshBase::Captured(_), MeshBase::Captured(_)) => true,
            (MeshBase::Sdf(_), MeshBase::Sdf(_)) => true,
            _ => false,
        },
{
    reveal_strlit("primitive");
    reveal_strlit("lathe");
    reveal_strlit("superquadric");
    reveal_strlit("sweep");
    reveal_strlit("captured");
    reveal_strlit("sdf");
    assert("primitive"@.len() == 9 && "lathe"@.len() == 5 && "superquadric"@.len() == 12);
    assert("sweep"@.len() == 5 && "captured"@.len() == 8 && "sdf"@.len() == 3);
    assert("lathe"@[0] == 'l' && "sweep"@[0] == 's');
}

/// Of a row of vertices, those of the mesh stay, and no others.
pub proof fn law_vertices_of_the_mesh_stay(row: Seq<u32>, count: nat, k: u32)
    ensures
        within_mesh(row, count).contains(k) == (row.contains(k) && k < count),
    decreases row.len(),
{
    if row.len() > 0 {
        let less = row.drop_last();
        law_vertices_of_the_mesh_stay(less, count, k);
        let a = within_mesh(less, count);
        let r = within_mesh(row, count);
        if row.contains(k) {
            let j = choose|j: int| 0 <= j < row.len() && row[j] == k;
            if j < less.len() {
                assert(less[j] == k);
            }
        }
        if less.contains(k) {
            let j = choose|j: int| 0 <= j < less.len() && less[j] == k;
            assert(row[j] == k);
        }
        if a.contains(k) {
            let j = choose|j: int| 0 <= j < a.len() && a[j] == k;
            assert(r[j] == k);
        }
        if r.contains(k) {
            let j = choose|j: int| 0 <= j < r.len() && r[j] == k;
            if j < a.len() {
                assert(a[j] == k);
            } else {
                assert(row[row.len() - 1] == k);
            }
        }
        if row.last() == k && k < count {
            assert(r[r.len() - 1] == k);
            assert(row[row.len() - 1] == k);
        }
    }
}

/// A band is the selection, or the vertices that are given, or every vertex where none
/// are given.
pub proof fn law_band_is_what_is_asked_for(
    s: SelectionsView,
    selection: Option<u32>,
    indices: Seq<u32>,
    count: nat,
)
    requires
        count <= u32::MAX,
    ensures
        selection matches Some(id) ==> band(s, selection, indices, count) == s.rows[id as u128],
        selection is None && indices.len() > 0 ==> band(s, selection, indices, count) == indices,
        selection is None && indices.len() == 0 ==> {
            let r = band(s, selection, indices, count);
            r.len() == count && forall|i: int| 0 <= i < count ==> #[trigger] r[i] == i
        },
{
}

proof fn lemma_with_edge(es: Seq<HullEdge>, e: HullEdge, x: HullEdge)
    ensures
        with_edge(es, e).contains(x) == (es.contains(x) || x == e),
{
    if !es.contains(e) {
        let r = es.push(e);
        if es.contains(x) {
            let j = choose|j: int| 0 <= j < es.len() && es[j] == x;
            assert(r[j] == x);
        }
        if x == e {
            assert(r[es.len() as int] == x);
        }
        if r.contains(x) {
            let j = choose|j: int| 0 <= j < r.len() && r[j] == x;
            if j < es.len() {
                assert(es[j] == x);
            }
        }
    }
}

/// Whether an edge joins two corners of a triangle.
pub open spec fn joins(t: Triangle, e: HullEdge) -> bool {
    ||| (e.a == t.a && e.b == t.b) || (e.a == t.b && e.b == t.a)
    ||| (e.a == t.b && e.b == t.c) || (e.a == t.c && e.b == t.b)
    ||| (e.a == t.c && e.b == t.a) || (e.a == t.a && e.b == t.c)
}

/// The edges of a layout are those of its triangles, each written from the lower corner.
pub proof fn law_layout_edges_are_those_of_the_triangles(ts: Seq<Triangle>, k: nat, e: HullEdge)
    requires
        k <= ts.len(),
    ensures
        layout_edges(ts, k).contains(e) == (e.a <= e.b && exists|i: int|
            0 <= i < k && joins(#[trigger] ts[i], e)),
    decreases k,
{
    if k > 0 {
        let m = (k - 1) as nat;
        law_layout_edges_are_those_of_the_triangles(ts, m, e);
        let t = ts[m as int];
        let r0 = layout_edges(ts, m);
        let e1 = crate::collider_wire::edge(t.a, t.b);
        let e2 = crate::collider_wire::edge(t.b, t.c);
        let e3 = crate::collider_wire::edge(t.c, t.a);
        lemma_with_edge(r0, e1, e);
        lemma_with_edge(with_edge(r0, e1), e2, e);
        lemma_with_edge(with_edge(with_edge(r0, e1), e2), e3, e);
        assert((e == e1 || e == e2 || e == e3) == (e.a <= e.b && joins(t, e)));
        if exists|i: int| 0 <= i < m && joins(#[trigger] ts[i], e) {
            let i = choose|i: int| 0 <= i < m && joins(#[trigger] ts[i], e);
            assert(0 <= i < k && joins(ts[i], e));
        }
        if joins(t, e) {
            assert(joins(ts[m as int], e));
        }
    }
}

/// A line of a layout runs between the texture coordinates of the ends of its edge.
pub proof fn law_layout_lines_join_their_ends(es: Seq<HullEdge>, uvs: Seq<Vec2>)
    requires
        forall|i: int|
            0 <= i < es.len() ==> (#[trigger] es[i]).a < uvs.len() && es[i].b < uvs.len(),
    ensures
        layout_lines(es, uvs).len() == es.len(),
        forall|i: int|
            0 <= i < es.len() ==> (#[trigger] layout_lines(es, uvs)[i]).a == uvs[es[i].a as int]
                && layout_lines(es, uvs)[i].b == uvs[es[i].b as int],
    decreases es.len(),
{
    if es.len() > 0 {
        let less = es.drop_last();
        assert forall|i: int| 0 <= i < less.len() implies (#[trigger] less[i]).a < uvs.len()
            && less[i].b < uvs.len() by {
            assert(less[i] == es[i]);
        }
        law_layout_lines_join_their_ends(less, uvs);
        let a = layout_lines(less, uvs);
        let r = layout_lines(es, uvs);
        assert(es[es.len() - 1].a < uvs.len());
        assert forall|i: int| 0 <= i < es.len() implies (#[trigger] r[i]).a == uvs[es[i].a as int]
            && r[i].b == uvs[es[i].b as int] by {
            if i < less.len() {
                assert(r[i] == a[i]);
                assert(less[i] == es[i]);
            }
        }
    }
}

/// The first set of texture coordinates and the second are told apart; there is no
/// third.
pub proof fn law_coordinate_sets_are_told_apart(d: MeshData, set: u32)
    ensures
        set == 0 && d.uvs@.len() > 0 ==> uv_set_of(d, set) == Some(d.uvs@),
        set == 0 && d.uvs@.len() == 0 ==> uv_set_of(d, set) is None,
        set == 1 ==> (d.uvs1 matches Some(l) ==> uv_set_of(d, set) == Some(l@)),
        set == 1 && d.uvs1 is None ==> uv_set_of(d, set) is None,
        set > 1 ==> uv_set_of(d, set) is None,
{
}

/// A word is read from its bytes as it is written, the lowest first.
pub proof fn law_word_is_read_as_written(n: u32, bytes: Seq<u8>, p: int)
    requires
        0 <= p,
        p + 4 <= bytes.len(),
        bytes.subrange(p, p + 4) == bytes_of(n),
    ensures
        word_at(bytes, p) == n,
        bytes[p] == n % 256,
{
    let b = bytes.subrange(p, p + 4);
    assert(b[0] == bytes[p] && b[1] == bytes[p + 1] && b[2] == bytes[p + 2] && b[3] == bytes[p
        + 3]);
    assert(n == n % 0x100 + (n / 0x100 % 0x100) * 0x100 + (n / 0x1_0000 % 0x100) * 0x1_0000 + (n
        / 0x100_0000) * 0x100_0000) by (bit_vector);
    assert(n / 0x100_0000 < 0x100) by (bit_vector);
}

proof fn lemma_entry_bytes(e: SkinWeightEntry, i: int)
    requires
        0 <= i < 4,
    ensures
        entry_bytes(e).len() == 32,
        entry_bytes(e)[i] == bytes_of(e.a.joint)[i],
        entry_bytes(e)[4 + i] == bytes_of(e.a.weight.bits)[i],
        entry_bytes(e)[8 + i] == bytes_of(e.b.joint)[i],
        entry_bytes(e)[12 + i] == bytes_of(e.b.weight.bits)[i],
        entry_bytes(e)[16 + i] == bytes_of(e.c.joint)[i],
        entry_bytes(e)[20 + i] == bytes_of(e.c.weight.bits)[i],
        entry_bytes(e)[24 + i] == bytes_of(e.d.joint)[i],
        entry_bytes(e)[28 + i] == bytes_of(e.d.weight.bits)[i],
{
}

/// The influences of a vertex are laid one after the other, the joint before its weight,
/// and are read in that order.
pub proof fn law_influences_lie_in_order(s: SkinView, e: SkinWeightEntry)
    requires
        e.vertex * (s.sets * 32) + 32 <= s.bytes.len(),
        s.bytes.subrange(e.vertex * (s.sets * 32), e.vertex * (s.sets * 32) + 32) == entry_bytes(
            e,
        ),
    ensures
        entry_at(s, e.vertex) == e,
        word_at(s.bytes, e.vertex * (s.sets * 32)) == e.a.joint,
        word_at(s.bytes, e.vertex * (s.sets * 32) + 4) == e.a.weight.bits,
        word_at(s.bytes, e.vertex * (s.sets * 32) + 8) == e.b.joint,
        word_at(s.bytes, e.vertex * (s.sets * 32) + 16) == e.c.joint,
        word_at(s.bytes, e.vertex * (s.sets * 32) + 24) == e.d.joint,
{
    let p = e.vertex * (s.sets * 32);
    assert(p >= 0) by (nonlinear_arith)
        requires
            p == e.vertex * (s.sets * 32),
            e.vertex >= 0,
            s.sets >= 0,
    ;
    let b = s.bytes;
    let all = b.subrange(p, p + 32);
    assert forall|i: int| 0 <= i < 32 implies #[trigger] all[i] == b[p + i] by {}
    lemma_entry_bytes(e, 0);
    lemma_entry_bytes(e, 1);
    lemma_entry_bytes(e, 2);
    lemma_entry_bytes(e, 3);
    lemma_piece(b, p, 0, e, e.a.joint);
    lemma_piece(b, p, 4, e, e.a.weight.bits);
    lemma_piece(b, p, 8, e, e.b.joint);
    lemma_piece(b, p, 12, e, e.b.weight.bits);
    lemma_piece(b, p, 16, e, e.c.joint);
    lemma_piece(b, p, 20, e, e.c.weight.bits);
    lemma_piece(b, p, 24, e, e.d.joint);
    lemma_piece(b, p, 28, e, e.d.weight.bits);
}

proof fn lemma_piece(b: Seq<u8>, p: int, o: int, e: SkinWeightEntry, n: u32)
    requires
        0 <= p,
        0 <= o <= 28,
        p + 32 <= b.len(),
        b.subrange(p, p + 32) == entry_bytes(e),
        entry_bytes(e)[o] == bytes_of(n)[0],
        entry_bytes(e)[o + 1] == bytes_of(n)[1],
        entry_bytes(e)[o + 2] == bytes_of(n)[2],
        entry_bytes(e)[o + 3] == bytes_of(n)[3],
    ensures
        word_at(b, p + o) == n,
{
    let all = b.subrange(p, p + 32);
    assert(all[o] == b[p + o] && all[o + 1] == b[p + o + 1] && all[o + 2] == b[p + o + 2] && all[o
        + 3] == b[p + o + 3]);
    assert(b.subrange(p + o, p + o + 4) =~= bytes_of(n));
    law_word_is_read_as_written(n, b, p + o);
}

/// A vertex that is given weights has them when it is read again.
pub proof fn law_weights_are_read_back(s: SkinView, entries: Seq<SkinWeightEntry>)
    requires
        entries.len() > 0,
        vertex_within(s, entries.last().vertex),
    ensures
        entry_at(
            SkinView { sets: s.sets, bytes: reweighted(s, entries) },
            entries.last().vertex,
        ) == entries.last(),
{
    let e = entries.last();
    let before = reweighted(s, entries.drop_last());
    lemma_len(s, entries.drop_last());
    let p = e.vertex * (s.sets * 32);
    let n = s.bytes.len() as int;
    let k = s.sets * 32;
    assert(e.vertex < n / k);
    assert(0 <= p && p + 32 <= n) by (nonlinear_arith)
        requires
            p == e.vertex * k,
            k == s.sets * 32,
            s.sets >= 1,
            0 <= e.vertex < n / k,
            n >= 0,
    ;
    let after = overwritten(before, p, entry_bytes(e));
    lemma_entry_bytes(e, 0);
    assert(after.subrange(p, p + 32) =~= entry_bytes(e));
    law_influences_lie_in_order(SkinView { sets: s.sets, bytes: after }, e);
}

proof fn lemma_len(s: SkinView, entries: Seq<SkinWeightEntry>)
    ensures
        reweighted(s, entries).len() == s.bytes.len(),
    decreases entries.len(),
{
    if entries.len() > 0 {
        lemma_len(s, entries.drop_last());
    }
}

} // verus!
