//! Edits of mesh assets: their recipes, what is painted over them, and the
//! geometry that is baked from both. Evaluating a recipe is left to a function
//! that the caller hands in.
use crate::assets::{
    bases_alike, same_base, well_indexed, AssetEntry, AssetSource, MeshBase, MeshData, MeshDef,
    Modifier, ModifierStack, VertexOverrides,
};
use crate::errors::EditorError;
use crate::ids::{captured_snapshot_id, law_snapshot_ids_are_distinct, snapshot_id, AssetId};
use crate::list::{List, Same};
use crate::selections::{resolved, SelectionsView, VertexSelections};
use crate::table::{painted, zipped, Table};
use crate::values::{Vec2, Vec3, Vec4};
use vstd::prelude::*;

verus! {

/// The vertices that an edit is about: by handle, or one by one.
pub struct Pick {
    pub selection: Option<u32>,
    pub indices: List<u32>,
}

/// Edits of mesh assets.
#[allow(inconsistent_fields)]
pub enum MeshCommand {
    SetMeshData { mesh: AssetId, data: MeshData, allow_empty: bool },
    SetMeshModifiers { mesh: AssetId, stack: ModifierStack },
    AddModifier { mesh: AssetId, modifier: Modifier },
    SetModifier { mesh: AssetId, index: u32, modifier: Modifier },
    RemoveModifier { mesh: AssetId, index: u32 },
    SetVertexPositions { mesh: AssetId, pick: Pick, positions: List<Vec3> },
    /// Moves vertices to where the caller's falloff around the given ones takes
    /// them; `targets` has a point for each vertex, and those that stay are left
    /// alone.
    SoftTransformVertices { mesh: AssetId, pick: Pick, targets: List<Vec3> },
    PaintVertexColors { mesh: AssetId, pick: Pick, color: Vec4 },
    SetVertexNormals { mesh: AssetId, pick: Pick, normal: Vec3 },
    SetVertexUvs { mesh: AssetId, pick: Pick, uvs: List<Vec2> },
    SetVertexOverrides { mesh: AssetId, overrides: VertexOverrides },
    CollapseMeshStack { mesh: AssetId },
    BakeAll,
    /// Gives a mesh everything back that it was before an edit.
    RestoreMesh { mesh: AssetId, former: FormerMesh },
}

/// A mesh as it was: its definition, the geometry that is rendered, and the frozen
/// snapshot that its recipe may read.
pub struct FormerMesh {
    pub def: MeshDef,
    pub data: Option<MeshData>,
    pub snapshot: Option<MeshData>,
}

/// The assets of a project and the geometry baked for them.
pub struct MeshStore {
    pub assets: Table<AssetEntry>,
    pub geometry: Table<MeshData>,
}

/// The assets and geometry as values.
#[verifier::ext_equal]
pub struct StoreView {
    pub assets: Map<u128, AssetEntry>,
    pub geometry: Map<u128, MeshData>,
}

impl View for MeshStore {
    type V = StoreView;

    open spec fn view(&self) -> StoreView {
        StoreView { assets: self.assets@, geometry: self.geometry@ }
    }
}

/// The mesh definition of an asset, where it is a mesh.
pub open spec fn mesh_def(v: StoreView, mesh: AssetId) -> Option<MeshDef> {
    if v.assets.contains_key(mesh.0) {
        match v.assets[mesh.0].source {
            AssetSource::Mesh(d) => Some(d),
            _ => None,
        }
    } else {
        None
    }
}

/// The assets with another definition of a mesh.
pub open spec fn with_def(v: StoreView, mesh: AssetId, d: MeshDef) -> StoreView {
    StoreView {
        assets: v.assets.insert(
            mesh.0,
            AssetEntry { source: AssetSource::Mesh(d), ..v.assets[mesh.0] },
        ),
        ..v
    }
}

/// The store with other geometry for an asset.
pub open spec fn with_geometry(v: StoreView, id: AssetId, d: MeshData) -> StoreView {
    StoreView { geometry: v.geometry.insert(id.0, d), ..v }
}

/// The geometry kept under a key, if there is any.
pub open spec fn kept(geometry: Map<u128, MeshData>, k: u128) -> Option<MeshData> {
    if geometry.contains_key(k) {
        Some(geometry[k])
    } else {
        None
    }
}

/// The geometry with what is kept under a key replaced, or gone.
pub open spec fn keeping(
    geometry: Map<u128, MeshData>,
    k: u128,
    data: Option<MeshData>,
) -> Map<u128, MeshData> {
    match data {
        Some(d) => geometry.insert(k, d),
        None => geometry.remove(k),
    }
}

/// A mesh as it is now.
pub open spec fn former_mesh(v: StoreView, mesh: AssetId) -> FormerMesh {
    FormerMesh {
        def: mesh_def(v, mesh)->0,
        data: kept(v.geometry, mesh.0),
        snapshot: kept(v.geometry, snapshot_id(mesh).0),
    }
}

/// The command that gives a mesh back what it is now.
pub open spec fn restore_of(v: StoreView, mesh: AssetId) -> MeshCommand {
    MeshCommand::RestoreMesh { mesh, former: former_mesh(v, mesh) }
}

/// The store with a mesh as it was.
pub open spec fn restored(v: StoreView, mesh: AssetId, former: FormerMesh) -> StoreView {
    StoreView {
        geometry: keeping(
            keeping(v.geometry, mesh.0, former.data),
            snapshot_id(mesh).0,
            former.snapshot,
        ),
        ..with_def(v, mesh, former.def)
    }
}

/// Whether `b` is what the evaluator makes of a recipe and an override layer,
/// with captured geometry at hand.
pub open spec fn bakes<F: Fn(&ModifierStack, &VertexOverrides, &Table<MeshData>) -> MeshData>(
    eval: F,
    stack: ModifierStack,
    overrides: VertexOverrides,
    geometry: Map<u128, MeshData>,
    b: MeshData,
) -> bool {
    exists|t: Table<MeshData>| #[trigger]
        call_ensures(eval, (&stack, &overrides, &t), b) && t@ == geometry
}

/// Whether the evaluator accepts whatever it is given.
pub open spec fn total<F: Fn(&ModifierStack, &VertexOverrides, &Table<MeshData>) -> MeshData>(
    eval: F,
) -> bool {
    forall|s: &ModifierStack, o: &VertexOverrides, t: &Table<MeshData>| #[trigger]
        call_requires(eval, (s, o, t))
}

/// Whether a recipe reads the geometry that the mesh itself is baked to, and
/// does something to it. Such a recipe would apply itself again at every bake.
pub open spec fn feeds_on_itself(stack: ModifierStack, mesh: AssetId) -> bool {
    stack.base == MeshBase::Captured(mesh) && stack.modifiers@.len() > 0
}

/// The recipe as it is stored: one that would read its own output reads the
/// frozen snapshot instead.
pub open spec fn stored_stack(stack: ModifierStack, mesh: AssetId) -> ModifierStack {
    if feeds_on_itself(stack, mesh) {
        ModifierStack { base: MeshBase::Captured(snapshot_id(mesh)), ..stack }
    } else {
        stack
    }
}

/// The geometry with the snapshot taken, where the recipe needs one and there is
/// none yet.
pub open spec fn with_snapshot(
    geometry: Map<u128, MeshData>,
    stack: ModifierStack,
    mesh: AssetId,
) -> Map<u128, MeshData> {
    if feeds_on_itself(stack, mesh) && !geometry.contains_key(snapshot_id(mesh).0)
        && geometry.contains_key(mesh.0) {
        geometry.insert(snapshot_id(mesh).0, geometry[mesh.0])
    } else {
        geometry
    }
}

/// Whether another recipe drops the override layer: its base is another, and the
/// layer is indexed by the vertices of the old one.
pub open spec fn clears_overrides(d: MeshDef, stack: ModifierStack) -> bool {
    !bases_alike(stack.base, d.stack.base) && !d.overrides.blank()
}

/// What another recipe makes of the store.
pub open spec fn stack_step<
    F: Fn(&ModifierStack, &VertexOverrides, &Table<MeshData>) -> MeshData,
>(eval: F, v: StoreView, mesh: AssetId, stack: ModifierStack, w: StoreView) -> bool {
    match mesh_def(v, mesh) {
        None => w == v,
        Some(d) => {
            let geometry = with_snapshot(v.geometry, stack, mesh);
            let d2 = mesh_def(w, mesh)->0;
            &&& mesh_def(w, mesh) is Some
            &&& d2 == (MeshDef {
                stack: stored_stack(stack, mesh),
                editable: true,
                overrides: d2.overrides,
                ..d
            })
            &&& if clears_overrides(d, stack) {
                d2.overrides.blank()
            } else {
                d2.overrides == d.overrides
            }
            &&& w.assets == with_def(v, mesh, d2).assets
            &&& w.geometry == geometry.insert(mesh.0, w.geometry[mesh.0])
            &&& bakes(eval, d2.stack, d2.overrides, geometry, w.geometry[mesh.0])
        },
    }
}

/// What takes another recipe back: the former recipe; or the whole mesh as it was,
/// where the former recipe alone would not lead back. That is so where the layer
/// was dropped, where the former recipe read the geometry that its own bake wrote,
/// and where the mesh had not been editable.
pub open spec fn stack_inverse(
    v: StoreView,
    mesh: AssetId,
    stack: ModifierStack,
    inv: Seq<MeshCommand>,
) -> bool {
    match mesh_def(v, mesh) {
        None => inv.len() == 0,
        Some(d) => if clears_overrides(d, stack) || d.stack.base == MeshBase::Captured(mesh)
            || !d.editable {
            inv == seq![restore_of(v, mesh)]
        } else {
            inv == seq![MeshCommand::SetMeshModifiers { mesh, stack: d.stack }]
        },
    }
}

/// What making a mesh fit for painting does: its recipe is baked, without the
/// layer, and becomes nothing but that geometry.
pub open spec fn author_step<
    F: Fn(&ModifierStack, &VertexOverrides, &Table<MeshData>) -> MeshData,
>(eval: F, v: StoreView, mesh: AssetId, w: StoreView) -> bool {
    match mesh_def(v, mesh) {
        None => w == v,
        Some(d) => if d.stack.is_bare_capture(mesh) {
            w == v
        } else {
            let d2 = mesh_def(w, mesh)->0;
            &&& mesh_def(w, mesh) is Some
            &&& d2 == (MeshDef { stack: d2.stack, editable: true, ..d })
            &&& d2.stack.is_bare_capture(mesh)
            &&& w.assets == with_def(v, mesh, d2).assets
            &&& w.geometry == v.geometry.insert(mesh.0, w.geometry[mesh.0])
            &&& exists|none: VertexOverrides|
                none.blank() && #[trigger] bakes(
                    eval,
                    d.stack,
                    none,
                    v.geometry,
                    w.geometry[mesh.0],
                )
        },
    }
}

/// What another override layer makes of a mesh that is fit for painting.
pub open spec fn layer_step<
    F: Fn(&ModifierStack, &VertexOverrides, &Table<MeshData>) -> MeshData,
>(eval: F, v: StoreView, mesh: AssetId, layer: VertexOverrides, w: StoreView) -> bool {
    let d = mesh_def(v, mesh)->0;
    let d2 = MeshDef { overrides: layer, ..d };
    &&& w.assets == with_def(v, mesh, d2).assets
    &&& w.geometry == v.geometry.insert(mesh.0, w.geometry[mesh.0])
    &&& bakes(eval, d.stack, layer, v.geometry, w.geometry[mesh.0])
}

/// The points of a layer with every vertex that moves moved.
pub open spec fn moved_points(
    m: Map<u32, Vec3>,
    from: Seq<Vec3>,
    to: Seq<Vec3>,
) -> Map<u32, Vec3>
    decreases from.len(),
{
    if from.len() == 0 {
        m
    } else {
        let i = from.len() - 1;
        let rest = moved_points(m, from.drop_last(), to);
        if i < to.len() && i <= u32::MAX && !from[i].equals(to[i]) {
            rest.insert(i as u32, to[i])
        } else {
            rest
        }
    }
}

/// Whether any vertex moves.
pub open spec fn any_moves(from: Seq<Vec3>, to: Seq<Vec3>) -> bool {
    exists|i: int|
        0 <= i < from.len() && i < to.len() && i <= u32::MAX && !(#[trigger] from[i]).equals(to[i])
}

/// Whether `layer` is the layer of `d` after an edit of picked vertices.
pub open spec fn layered(
    d: VertexOverrides,
    cmd: MeshCommand,
    picked: Seq<u32>,
    layer: VertexOverrides,
) -> bool {
    match cmd {
        MeshCommand::SetVertexPositions { positions, .. } => {
            &&& layer == (VertexOverrides { positions: layer.positions, ..d })
            &&& layer.positions@ == zipped(d.positions@, picked, positions@)
        },
        MeshCommand::PaintVertexColors { color, .. } => {
            &&& layer == (VertexOverrides { colors: layer.colors, ..d })
            &&& layer.colors@ == painted(d.colors@, picked, color)
        },
        MeshCommand::SetVertexNormals { normal, .. } => {
            &&& layer == (VertexOverrides { normals: layer.normals, ..d })
            &&& layer.normals@ == painted(d.normals@, picked, normal)
        },
        MeshCommand::SetVertexUvs { uvs, .. } => {
            &&& layer == (VertexOverrides { uvs: layer.uvs, ..d })
            &&& layer.uvs@ == zipped(d.uvs@, picked, uvs@)
        },
        MeshCommand::SetVertexOverrides { overrides, .. } => layer == overrides,
        _ => false,
    }
}

impl MeshStore {
    /// An empty store.
    pub fn new() -> (s: MeshStore)
        ensures
            s@.assets == Map::<u128, AssetEntry>::empty(),
            s@.geometry == Map::<u128, MeshData>::empty(),
    {
        MeshStore { assets: Table::new(), geometry: Table::new() }
    }

    /// The definition of a mesh asset.
    pub fn find_def(&self, mesh: AssetId) -> (r: Option<&MeshDef>)
        ensures
            match r {
                Some(d) => mesh_def(self@, mesh) == Some(*d),
                None => mesh_def(self@, mesh) is None,
            },
    {
        match self.assets.get(mesh.0) {
            Some(e) => match &e.source {
                AssetSource::Mesh(d) => Some(d),
                _ => None,
            },
            None => None,
        }
    }

    /// The recipe of a mesh, for an edit of its modifiers.
    pub fn mesh_stack(&self, mesh: AssetId) -> (r: Result<ModifierStack, EditorError>)
        ensures
            match mesh_def(self@, mesh) {
                Some(d) => r == Ok::<ModifierStack, EditorError>(d.stack),
                None => r == Err::<ModifierStack, EditorError>(
                    EditorError::NotAnEditableMesh(mesh),
                ),
            },
    {
        match self.find_def(mesh) {
            Some(d) => Ok(d.stack.same()),
            None => Err(EditorError::NotAnEditableMesh(mesh)),
        }
    }

    fn put_def(&mut self, mesh: AssetId, d: MeshDef)
        requires
            mesh_def(old(self)@, mesh) is Some,
        ensures
            final(self)@ == with_def(old(self)@, mesh, d),
            mesh_def(final(self)@, mesh) == Some(d),
    {
        let mut entry = match self.assets.get(mesh.0) {
            Some(e) => e.same(),
            None => AssetEntry::new(AssetSource::Mesh(d.same())),
        };
        entry.source = AssetSource::Mesh(d);
        self.assets.insert(mesh.0, entry);
    }

    /// Bakes a recipe with a layer into the geometry of an asset.
    fn bake<F: Fn(&ModifierStack, &VertexOverrides, &Table<MeshData>) -> MeshData>(
        &mut self,
        mesh: AssetId,
        stack: &ModifierStack,
        overrides: &VertexOverrides,
        eval: &F,
    )
        requires
            total(*eval),
        ensures
            final(self)@.assets == old(self)@.assets,
            final(self)@.geometry == old(self)@.geometry.insert(
                mesh.0,
                final(self)@.geometry[mesh.0],
            ),
            bakes(
                *eval,
                *stack,
                *overrides,
                old(self)@.geometry,
                final(self)@.geometry[mesh.0],
            ),
    {
        let ghost before = self@;
        let b = eval(stack, overrides, &self.geometry);
        assert(call_ensures(*eval, (stack, overrides, &self.geometry), b));
        assert(bakes(*eval, *stack, *overrides, before.geometry, b));
        self.geometry.insert(mesh.0, b);
    }

    fn keeps(&self, id: AssetId) -> (r: Option<MeshData>)
        ensures
            r == kept(self@.geometry, id.0),
    {
        match self.geometry.get(id.0) {
            Some(g) => Some(g.same()),
            None => None,
        }
    }

    /// The command that gives a mesh back what it is now.
    pub(crate) fn restoring(&self, mesh: AssetId) -> (r: MeshCommand)
        requires
            mesh_def(self@, mesh) is Some,
        ensures
            r == restore_of(self@, mesh),
    {
        let def = match self.find_def(mesh) {
            Some(d) => d.same(),
            None => MeshDef {
                label: String::new(),
                source: None,
                editable: true,
                stack: ModifierStack::bare_capture(mesh),
                overrides: VertexOverrides::none(),
            },
        };
        let former = FormerMesh {
            def,
            data: self.keeps(mesh),
            snapshot: self.keeps(captured_snapshot_id(mesh)),
        };
        MeshCommand::RestoreMesh { mesh, former }
    }

    fn keep(&mut self, id: AssetId, data: Option<MeshData>)
        ensures
            final(self)@ == (StoreView {
                geometry: keeping(old(self)@.geometry, id.0, data),
                ..old(self)@
            }),
    {
        match data {
            Some(d) => {
                self.geometry.insert(id.0, d);
            },
            None => {
                self.geometry.remove(id.0);
            },
        }
    }

    /// Gives a mesh everything back that it was. Hands back what takes that back;
    /// nothing where the asset is no mesh.
    fn restore(&mut self, mesh: AssetId, former: FormerMesh) -> (r: Vec<MeshCommand>)
        ensures
            match mesh_def(old(self)@, mesh) {
                None => final(self)@ == old(self)@ && r@.len() == 0,
                Some(_) => final(self)@ == restored(old(self)@, mesh, former) && r@ == seq![
                    restore_of(old(self)@, mesh),
                ],
            },
    {
        let mut inv: Vec<MeshCommand> = Vec::new();
        if self.find_def(mesh).is_some() {
            inv.push(self.restoring(mesh));
            self.put_def(mesh, former.def);
            self.keep(mesh, former.data);
            self.keep(captured_snapshot_id(mesh), former.snapshot);
            assert(inv@ =~= seq![restore_of(old(self)@, mesh)]);
        }
        inv
    }

    /// Gives a mesh another recipe and bakes it. Hands back what takes it back;
    /// nothing where the asset is no mesh.
    pub fn apply_mesh_stack<
        F: Fn(&ModifierStack, &VertexOverrides, &Table<MeshData>) -> MeshData,
    >(&mut self, mesh: AssetId, stack: ModifierStack, eval: &F) -> (r: Vec<MeshCommand>)
        requires
            total(*eval),
        ensures
            stack_step(*eval, old(self)@, mesh, stack, final(self)@),
            stack_inverse(old(self)@, mesh, stack, r@),
    {
        let ghost v = self@;
        let d = match self.find_def(mesh) {
            Some(d) => d.same(),
            None => {
                return Vec::new();
            },
        };
        let back = self.restoring(mesh);
        let bytes: Option<MeshData> = self.keeps(mesh);
        let cleared = !same_base(&stack.base, &d.stack.base) && !d.overrides.is_empty();
        let own = match stack.base {
            MeshBase::Captured(id) => id == mesh,
            _ => false,
        };
        let was_own = match d.stack.base {
            MeshBase::Captured(id) => id == mesh,
            _ => false,
        };
        let mut next = stack.same();
        if own && !stack.modifiers.is_empty() {
            let snap = captured_snapshot_id(mesh);
            if !self.geometry.contains(snap.0) {
                if let Some(g) = &bytes {
                    self.geometry.insert(snap.0, g.same());
                }
            }
            next = ModifierStack { base: MeshBase::Captured(snap), modifiers: stack.modifiers.clone() };
        }
        assert(next == stored_stack(stack, mesh));
        assert(self@.geometry == with_snapshot(v.geometry, stack, mesh));
        let layer = if cleared {
            VertexOverrides::none()
        } else {
            d.overrides.same()
        };
        let ghost d2 = MeshDef { stack: next, editable: true, overrides: layer, ..d };
        self.put_def(
            mesh,
            MeshDef {
                label: d.label.clone(),
                source: d.source,
                editable: true,
                stack: next.same(),
                overrides: layer.same(),
            },
        );
        self.bake(mesh, &next, &layer, eval);
        let mut inv: Vec<MeshCommand> = Vec::new();
        if cleared || was_own || !d.editable {
            inv.push(back);
            assert(inv@ =~= seq![restore_of(v, mesh)]);
        } else {
            inv.push(MeshCommand::SetMeshModifiers { mesh, stack: d.stack });
            assert(inv@ =~= seq![MeshCommand::SetMeshModifiers { mesh, stack: d.stack }]);
        }
        proof {
            assert(mesh_def(self@, mesh) == Some(d2));
            assert(was_own == (d.stack.base == MeshBase::Captured(mesh)));
        }
        inv
    }

    /// Makes a mesh fit for painting. Hands back the recipe that was baked, where
    /// it was.
    pub fn ensure_authorable<
        F: Fn(&ModifierStack, &VertexOverrides, &Table<MeshData>) -> MeshData,
    >(&mut self, mesh: AssetId, eval: &F) -> (r: Result<Option<ModifierStack>, EditorError>)
        requires
            total(*eval),
        ensures
            author_step(*eval, old(self)@, mesh, final(self)@),
            match mesh_def(old(self)@, mesh) {
                None => r == Err::<Option<ModifierStack>, EditorError>(
                    EditorError::NotAnEditableMesh(mesh),
                ),
                Some(d) => r == Ok::<Option<ModifierStack>, EditorError>(
                    if d.stack.is_bare_capture(mesh) {
                        None
                    } else {
                        Some(d.stack)
                    },
                ),
            },
    {
        let d = match self.find_def(mesh) {
            Some(d) => d.same(),
            None => {
                return Err(EditorError::NotAnEditableMesh(mesh));
            },
        };
        let own = match d.stack.base {
            MeshBase::Captured(id) => id == mesh,
            _ => false,
        };
        if own && d.stack.modifiers.is_empty() {
            return Ok(None);
        }
        let none = VertexOverrides::none();
        let ghost v = self@;
        self.bake(mesh, &d.stack, &none, eval);
        let ghost mid = self@;
        self.put_def(
            mesh,
            MeshDef {
                label: d.label,
                source: d.source,
                editable: true,
                stack: ModifierStack::bare_capture(mesh),
                overrides: d.overrides,
            },
        );
        proof {
            let d2 = mesh_def(self@, mesh)->0;
            assert(self@.geometry == mid.geometry);
            assert(none.blank() && bakes(
                *eval,
                d.stack,
                none,
                v.geometry,
                self@.geometry[mesh.0],
            ));
            assert(self@.assets =~= with_def(v, mesh, d2).assets);
        }
        Ok(Some(d.stack))
    }

    /// Gives a mesh that is fit for painting another override layer.
    fn set_layer<F: Fn(&ModifierStack, &VertexOverrides, &Table<MeshData>) -> MeshData>(
        &mut self,
        mesh: AssetId,
        layer: VertexOverrides,
        eval: &F,
    )
        requires
            total(*eval),
            mesh_def(old(self)@, mesh) is Some,
        ensures
            layer_step(*eval, old(self)@, mesh, layer, final(self)@),
    {
        if let Some(d) = self.find_def(mesh) {
            let d = d.same();
            let stack = d.stack.same();
            let kept = layer.same();
            self.put_def(
                mesh,
                MeshDef {
                    label: d.label,
                    source: d.source,
                    editable: d.editable,
                    stack: d.stack,
                    overrides: layer,
                },
            );
            self.bake(mesh, &stack, &kept, eval);
        }
    }
}

/// Why geometry is refused: it would wipe the mesh, or its triangles name
/// vertices that it does not have.
pub open spec fn data_refusal(data: MeshData, allow_empty: bool) -> Option<EditorError> {
    if !allow_empty && data.positions@.len() == 0 {
        Some(EditorError::EmptyMesh)
    } else if !well_indexed(data) {
        Some(EditorError::BrokenMesh)
    } else {
        None
    }
}

/// An edit of the override layer of picked vertices: the mesh is made fit for
/// painting, then the layer is changed and baked.
pub open spec fn layer_edit_step<
    F: Fn(&ModifierStack, &VertexOverrides, &Table<MeshData>) -> MeshData,
>(
    eval: F,
    v: StoreView,
    mesh: AssetId,
    cmd: MeshCommand,
    picked: Seq<u32>,
    w: StoreView,
    inv: Seq<MeshCommand>,
) -> bool {
    let d = mesh_def(v, mesh)->0;
    let layer = mesh_def(w, mesh)->0.overrides;
    &&& mesh_def(w, mesh) is Some
    &&& layered(d.overrides, cmd, picked, layer)
    &&& exists|m: StoreView| #[trigger]
        author_step(eval, v, mesh, m) && layer_step(eval, m, mesh, layer, w)
    &&& inv == seq![restore_of(v, mesh)]
}

/// A move of vertices: the mesh is made fit for painting, and each vertex that
/// the targets move is moved in the layer. Where none moves there is nothing to
/// take back.
pub open spec fn soft_step<
    F: Fn(&ModifierStack, &VertexOverrides, &Table<MeshData>) -> MeshData,
>(
    eval: F,
    v: StoreView,
    mesh: AssetId,
    targets: Seq<Vec3>,
    w: StoreView,
    inv: Seq<MeshCommand>,
) -> bool {
    let d = mesh_def(v, mesh)->0;
    exists|m: StoreView| #[trigger]
        author_step(eval, v, mesh, m) && if !m.geometry.contains_key(mesh.0) {
            w == m && inv.len() == 0
        } else {
            let from = m.geometry[mesh.0].positions@;
            let layer = mesh_def(w, mesh)->0.overrides;
            &&& mesh_def(w, mesh) is Some
            &&& layer == (VertexOverrides { positions: layer.positions, ..d.overrides })
            &&& layer.positions@ == moved_points(d.overrides.positions@, from, targets)
            &&& layer_step(eval, m, mesh, layer, w)
            &&& if any_moves(from, targets) {
                inv == seq![restore_of(v, mesh)]
            } else {
                inv.len() == 0
            }
        }
}

/// Whether a mesh has a recipe to bake: more than captured geometry, and
/// geometry to go back to.
pub open spec fn collapsible(v: StoreView, mesh: AssetId) -> bool {
    match mesh_def(v, mesh) {
        Some(d) => !(d.stack.modifiers@.len() == 0 && d.stack.base is Captured)
            && v.geometry.contains_key(mesh.0),
        None => false,
    }
}

/// Baking the recipe of a mesh into its geometry.
pub open spec fn collapse_step<
    F: Fn(&ModifierStack, &VertexOverrides, &Table<MeshData>) -> MeshData,
>(eval: F, v: StoreView, mesh: AssetId, w: StoreView, inv: Seq<MeshCommand>) -> bool {
    if collapsible(v, mesh) {
        let d = mesh_def(v, mesh)->0;
        let d2 = mesh_def(w, mesh)->0;
        &&& mesh_def(w, mesh) is Some
        &&& d2 == (MeshDef { stack: d2.stack, ..d })
        &&& d2.stack.is_bare_capture(mesh)
        &&& w.assets == with_def(v, mesh, d2).assets
        &&& w.geometry == v.geometry.insert(mesh.0, w.geometry[mesh.0])
        &&& exists|none: VertexOverrides|
            none.blank() && #[trigger] bakes(eval, d.stack, none, v.geometry, w.geometry[mesh.0])
        &&& inv == seq![restore_of(v, mesh)]
    } else {
        w == v && inv.len() == 0
    }
}

/// Baking one mesh of many, with its layer kept on top.
pub open spec fn bake_one_step<
    F: Fn(&ModifierStack, &VertexOverrides, &Table<MeshData>) -> MeshData,
>(eval: F, v: StoreView, mesh: AssetId, w: StoreView, inv: Seq<MeshCommand>) -> bool {
    match mesh_def(v, mesh) {
        None => w == v && inv.len() == 0,
        Some(d) => if d.stack.is_bare_capture(mesh) {
            w == v && inv.len() == 0
        } else {
            &&& exists|m: StoreView| #[trigger]
                author_step(eval, v, mesh, m) && layer_step(eval, m, mesh, d.overrides, w)
            &&& inv == seq![restore_of(v, mesh)]
        },
    }
}

/// A row of rows of commands, one after the other.
pub open spec fn all_of(invs: Seq<Seq<MeshCommand>>) -> Seq<MeshCommand>
    decreases invs.len(),
{
    if invs.len() == 0 {
        seq![]
    } else {
        all_of(invs.drop_last()) + invs.last()
    }
}

/// Whether the states are those of baking a row of meshes, one after the other.
pub open spec fn bake_run<
    F: Fn(&ModifierStack, &VertexOverrides, &Table<MeshData>) -> MeshData,
>(eval: F, row: Seq<u128>, states: Seq<StoreView>, invs: Seq<Seq<MeshCommand>>) -> bool {
    &&& states.len() == row.len() + 1
    &&& invs.len() == row.len()
    &&& forall|i: int|
        0 <= i < row.len() ==> #[trigger] bake_one_step(
            eval,
            states[i],
            AssetId(row[i]),
            states[i + 1],
            invs[i],
        )
}

/// Baking a row of meshes, one after the other.
pub open spec fn bake_row_step<
    F: Fn(&ModifierStack, &VertexOverrides, &Table<MeshData>) -> MeshData,
>(eval: F, v: StoreView, row: Seq<u128>, w: StoreView, inv: Seq<MeshCommand>) -> bool {
    exists|states: Seq<StoreView>, invs: Seq<Seq<MeshCommand>>| #[trigger]
        bake_run(eval, row, states, invs) && states[0] == v && states.last() == w && inv == all_of(
            invs,
        )
}

/// Baking every mesh, in some order.
pub open spec fn bake_all_step<
    F: Fn(&ModifierStack, &VertexOverrides, &Table<MeshData>) -> MeshData,
>(eval: F, v: StoreView, w: StoreView, inv: Seq<MeshCommand>) -> bool {
    exists|row: Seq<u128>|
        row.no_duplicates() && row.to_set() == v.assets.dom() && #[trigger] bake_row_step(
            eval,
            v,
            row,
            w,
            inv,
        )
}

/// An edit of meshes: what it leaves behind and what it hands back. The commands
/// handed back are applied in order; there are none where the edit cannot be
/// taken back.
pub open spec fn mesh_step<
    F: Fn(&ModifierStack, &VertexOverrides, &Table<MeshData>) -> MeshData,
>(
    eval: F,
    sel: SelectionsView,
    v: StoreView,
    cmd: MeshCommand,
    w: StoreView,
    r: Result<Seq<MeshCommand>, EditorError>,
) -> bool {
    match cmd {
        MeshCommand::SetMeshData { mesh, data, allow_empty } => match data_refusal(
            data,
            allow_empty,
        ) {
            Some(e) => w == v && r == Err::<Seq<MeshCommand>, EditorError>(e),
            None => w == with_geometry(v, mesh, data) && r == Ok::<
                Seq<MeshCommand>,
                EditorError,
            >(
                if v.geometry.contains_key(mesh.0) {
                    seq![
                        MeshCommand::SetMeshData {
                            mesh,
                            data: v.geometry[mesh.0],
                            allow_empty: true,
                        },
                    ]
                } else {
                    seq![]
                },
            ),
        },
        MeshCommand::SetMeshModifiers { mesh, stack } => {
            &&& stack_step(eval, v, mesh, stack, w)
            &&& r matches Ok(inv) && stack_inverse(v, mesh, stack, inv)
        },
        MeshCommand::AddModifier { mesh, modifier } => match mesh_def(v, mesh) {
            None => w == v && r == Err::<Seq<MeshCommand>, EditorError>(
                EditorError::NotAnEditableMesh(mesh),
            ),
            Some(d) => exists|stack: ModifierStack|
                stack.base == d.stack.base && stack.modifiers@ == d.stack.modifiers@.push(modifier)
                    && #[trigger] stack_step(eval, v, mesh, stack, w) && (r matches Ok(inv)
                    && stack_inverse(v, mesh, stack, inv)),
        },
        MeshCommand::SetModifier { mesh, index, modifier } => match mesh_def(v, mesh) {
            None => w == v && r == Err::<Seq<MeshCommand>, EditorError>(
                EditorError::NotAnEditableMesh(mesh),
            ),
            Some(d) => if index >= d.stack.modifiers@.len() {
                w == v && r == Err::<Seq<MeshCommand>, EditorError>(
                    EditorError::ModifierOutOfRange {
                        index,
                        mesh,
                        count: d.stack.modifiers@.len() as usize,
                    },
                )
            } else {
                exists|stack: ModifierStack|
                    stack.base == d.stack.base && stack.modifiers@ == d.stack.modifiers@.update(
                        index as int,
                        modifier,
                    ) && #[trigger] stack_step(eval, v, mesh, stack, w) && (r matches Ok(inv)
                        && stack_inverse(v, mesh, stack, inv))
            },
        },
        MeshCommand::RemoveModifier { mesh, index } => match mesh_def(v, mesh) {
            None => w == v && r == Err::<Seq<MeshCommand>, EditorError>(
                EditorError::NotAnEditableMesh(mesh),
            ),
            Some(d) => if index >= d.stack.modifiers@.len() {
                w == v && r == Err::<Seq<MeshCommand>, EditorError>(
                    EditorError::ModifierOutOfRange {
                        index,
                        mesh,
                        count: d.stack.modifiers@.len() as usize,
                    },
                )
            } else {
                exists|stack: ModifierStack|
                    stack.base == d.stack.base && stack.modifiers@ == d.stack.modifiers@.remove(
                        index as int,
                    ) && #[trigger] stack_step(eval, v, mesh, stack, w) && (r matches Ok(inv)
                        && stack_inverse(v, mesh, stack, inv))
            },
        },
        MeshCommand::SetVertexPositions { mesh, pick, .. } => picked_step(
            eval,
            sel,
            v,
            mesh,
            pick,
            cmd,
            w,
            r,
        ),
        MeshCommand::PaintVertexColors { mesh, pick, .. } => picked_step(
            eval,
            sel,
            v,
            mesh,
            pick,
            cmd,
            w,
            r,
        ),
        MeshCommand::SetVertexNormals { mesh, pick, .. } => picked_step(
            eval,
            sel,
            v,
            mesh,
            pick,
            cmd,
            w,
            r,
        ),
        MeshCommand::SetVertexUvs { mesh, pick, .. } => picked_step(
            eval,
            sel,
            v,
            mesh,
            pick,
            cmd,
            w,
            r,
        ),
        MeshCommand::SetVertexOverrides { mesh, .. } => match mesh_def(v, mesh) {
            None => w == v && r == Err::<Seq<MeshCommand>, EditorError>(
                EditorError::NotAnEditableMesh(mesh),
            ),
            Some(_) => r matches Ok(inv) && layer_edit_step(
                eval,
                v,
                mesh,
                cmd,
                Seq::empty(),
                w,
                inv,
            ),
        },
        MeshCommand::SoftTransformVertices { mesh, pick, targets } => match resolved(
            sel,
            pick.selection,
            pick.indices@,
        ) {
            Err(e) => w == v && r == Err::<Seq<MeshCommand>, EditorError>(e),
            Ok(_) => match mesh_def(v, mesh) {
                None => w == v && r == Err::<Seq<MeshCommand>, EditorError>(
                    EditorError::NotAnEditableMesh(mesh),
                ),
                Some(_) => r matches Ok(inv) && soft_step(eval, v, mesh, targets@, w, inv),
            },
        },
        MeshCommand::CollapseMeshStack { mesh } => r matches Ok(inv) && collapse_step(
            eval,
            v,
            mesh,
            w,
            inv,
        ),
        MeshCommand::BakeAll => r matches Ok(inv) && bake_all_step(eval, v, w, inv),
        MeshCommand::RestoreMesh { mesh, former } => match mesh_def(v, mesh) {
            None => w == v && r == Ok::<Seq<MeshCommand>, EditorError>(seq![]),
            Some(_) => w == restored(v, mesh, former) && r == Ok::<Seq<MeshCommand>, EditorError>(
                seq![restore_of(v, mesh)],
            ),
        },
    }
}

/// An edit of picked vertices.
pub open spec fn picked_step<
    F: Fn(&ModifierStack, &VertexOverrides, &Table<MeshData>) -> MeshData,
>(
    eval: F,
    sel: SelectionsView,
    v: StoreView,
    mesh: AssetId,
    pick: Pick,
    cmd: MeshCommand,
    w: StoreView,
    r: Result<Seq<MeshCommand>, EditorError>,
) -> bool {
    match resolved(sel, pick.selection, pick.indices@) {
        Err(e) => w == v && r == Err::<Seq<MeshCommand>, EditorError>(e),
        Ok(picked) => match mesh_def(v, mesh) {
            None => w == v && r == Err::<Seq<MeshCommand>, EditorError>(
                EditorError::NotAnEditableMesh(mesh),
            ),
            Some(_) => r matches Ok(inv) && layer_edit_step(eval, v, mesh, cmd, picked, w, inv),
        },
    }
}

/// A result whose commands are taken as a sequence.
pub open spec fn as_seq(r: Result<Vec<MeshCommand>, EditorError>) -> Result<
    Seq<MeshCommand>,
    EditorError,
> {
    match r {
        Ok(v) => Ok(v@),
        Err(e) => Err(e),
    }
}

fn lone(c: MeshCommand) -> (r: Vec<MeshCommand>)
    ensures
        r@ == seq![c],
{
    let mut r: Vec<MeshCommand> = Vec::new();
    r.push(c);
    assert(r@ =~= seq![c]);
    r
}

/// The layer with the vertices that move moved, and whether any does.
fn move_points(layer: &VertexOverrides, from: &List<Vec3>, to: &List<Vec3>) -> (r: (
    VertexOverrides,
    bool,
))
    ensures
        r.0 == (VertexOverrides { positions: r.0.positions, ..*layer }),
        r.0.positions@ == moved_points(layer.positions@, from@, to@),
        r.1 == any_moves(from@, to@),
{
    let mut points = layer.positions.clone();
    let mut any = false;
    let mut i: usize = 0;
    while i < from.len()
        invariant
            i <= from@.len(),
            points@ == moved_points(layer.positions@, from@.take(i as int), to@),
            any == exists|j: int|
                0 <= j < i && j < to@.len() && j <= u32::MAX && !(#[trigger] from@[j]).equals(
                    to@[j],
                ),
        decreases from@.len() - i,
    {
        assert(from@.take(i + 1).drop_last() =~= from@.take(i as int));
        assert(from@.take(i + 1)[i as int] == from@[i as int]);
        if i < to.len() && i <= u32::MAX as usize {
            let a: Vec3 = *from.at(i);
            let b: Vec3 = *to.at(i);
            if !a.eq_value(b) {
                let mut one: Vec<u32> = Vec::new();
                one.push(i as u32);
                let one = List::from_vec(one);
                let ghost was = points@;
                points = points.paint(&one, b);
                assert(points@ =~= was.insert(i as u32, b)) by {
                    assert(one@ =~= seq![i as u32]);
                    assert(one@[0] == i as u32);
                }
                any = true;
                assert(!from@[i as int].equals(to@[i as int]));
            }
        }
        i += 1;
    }
    assert(from@.take(i as int) =~= from@);
    (
        VertexOverrides {
            positions: points,
            colors: layer.colors.clone(),
            normals: layer.normals.clone(),
            uvs: layer.uvs.clone(),
        },
        any,
    )
}

impl MeshStore {
    fn set_data(&mut self, mesh: AssetId, data: MeshData, allow_empty: bool) -> (r: Result<
        Vec<MeshCommand>,
        EditorError,
    >)
        ensures
            match data_refusal(data, allow_empty) {
                Some(e) => final(self)@ == old(self)@ && as_seq(r) == Err::<
                    Seq<MeshCommand>,
                    EditorError,
                >(e),
                None => final(self)@ == with_geometry(old(self)@, mesh, data) && as_seq(r) == Ok::<
                    Seq<MeshCommand>,
                    EditorError,
                >(
                    if old(self)@.geometry.contains_key(mesh.0) {
                        seq![
                            MeshCommand::SetMeshData {
                                mesh,
                                data: old(self)@.geometry[mesh.0],
                                allow_empty: true,
                            },
                        ]
                    } else {
                        seq![]
                    },
                ),
            },
    {
        if !allow_empty && data.positions.is_empty() {
            return Err(EditorError::EmptyMesh);
        }
        if !data.is_well_indexed() {
            return Err(EditorError::BrokenMesh);
        }
        let mut inv: Vec<MeshCommand> = Vec::new();
        if let Some(g) = self.geometry.get(mesh.0) {
            let prior = g.same();
            inv.push(MeshCommand::SetMeshData { mesh, data: prior, allow_empty: true });
            assert(inv@ =~= seq![
                MeshCommand::SetMeshData {
                    mesh,
                    data: old(self)@.geometry[mesh.0],
                    allow_empty: true,
                },
            ]);
        } else {
            assert(inv@ =~= seq![]);
        }
        self.geometry.insert(mesh.0, data);
        Ok(inv)
    }

    /// Makes the mesh fit for painting, sets the layer and bakes.
    fn relayer<F: Fn(&ModifierStack, &VertexOverrides, &Table<MeshData>) -> MeshData>(
        &mut self,
        mesh: AssetId,
        cmd: &MeshCommand,
        picked: &List<u32>,
        eval: &F,
    ) -> (r: Result<Vec<MeshCommand>, EditorError>)
        requires
            total(*eval),
            cmd is SetVertexPositions || cmd is PaintVertexColors || cmd is SetVertexNormals
                || cmd is SetVertexUvs || cmd is SetVertexOverrides,
        ensures
            match mesh_def(old(self)@, mesh) {
                None => final(self)@ == old(self)@ && r == Err::<Vec<MeshCommand>, EditorError>(
                    EditorError::NotAnEditableMesh(mesh),
                ),
                Some(_) => r matches Ok(inv) && layer_edit_step(
                    *eval,
                    old(self)@,
                    mesh,
                    *cmd,
                    picked@,
                    final(self)@,
                    inv@,
                ),
            },
    {
        let ghost v = self@;
        let former = match self.find_def(mesh) {
            Some(d) => d.overrides.same(),
            None => {
                return Err(EditorError::NotAnEditableMesh(mesh));
            },
        };
        let back = self.restoring(mesh);
        if let Err(e) = self.ensure_authorable(mesh, eval) {
            return Err(e);
        }
        let ghost m = self@;
        let mut layer = former.same();
        match cmd {
            MeshCommand::SetVertexPositions { positions, .. } => {
                layer.positions = former.positions.assign(picked, positions);
            },
            MeshCommand::PaintVertexColors { color, .. } => {
                layer.colors = former.colors.paint(picked, *color);
            },
            MeshCommand::SetVertexNormals { normal, .. } => {
                layer.normals = former.normals.paint(picked, *normal);
            },
            MeshCommand::SetVertexUvs { uvs, .. } => {
                layer.uvs = former.uvs.assign(picked, uvs);
            },
            MeshCommand::SetVertexOverrides { overrides, .. } => {
                layer = overrides.same();
            },
            _ => {},
        }
        let ghost l = layer;
        self.set_layer(mesh, layer, eval);
        proof {
            assert(layered(mesh_def(v, mesh)->0.overrides, *cmd, picked@, l));
            assert(mesh_def(self@, mesh)->0.overrides == l);
            assert(author_step(*eval, v, mesh, m) && layer_step(*eval, m, mesh, l, self@));
        }
        Ok(lone(back))
    }

    fn soft_transform_mesh<F: Fn(&ModifierStack, &VertexOverrides, &Table<MeshData>) -> MeshData>(
        &mut self,
        mesh: AssetId,
        targets: &List<Vec3>,
        eval: &F,
    ) -> (r: Result<Vec<MeshCommand>, EditorError>)
        requires
            total(*eval),
        ensures
            match mesh_def(old(self)@, mesh) {
                None => final(self)@ == old(self)@ && r == Err::<Vec<MeshCommand>, EditorError>(
                    EditorError::NotAnEditableMesh(mesh),
                ),
                Some(_) => r matches Ok(inv) && soft_step(
                    *eval,
                    old(self)@,
                    mesh,
                    targets@,
                    final(self)@,
                    inv@,
                ),
            },
    {
        let ghost v = self@;
        let former = match self.find_def(mesh) {
            Some(d) => d.overrides.same(),
            None => {
                return Err(EditorError::NotAnEditableMesh(mesh));
            },
        };
        let back = self.restoring(mesh);
        if let Err(e) = self.ensure_authorable(mesh, eval) {
            return Err(e);
        }
        let ghost m = self@;
        assert(author_step(*eval, v, mesh, m));
        let from = match self.geometry.get(mesh.0) {
            Some(g) => g.positions.clone(),
            None => {
                return Ok(Vec::new());
            },
        };
        let (layer, any) = move_points(&former, &from, targets);
        let ghost l = layer;
        self.set_layer(mesh, layer, eval);
        assert(mesh_def(self@, mesh)->0.overrides == l);
        if any {
            Ok(lone(back))
        } else {
            Ok(Vec::new())
        }
    }

    fn collapse<F: Fn(&ModifierStack, &VertexOverrides, &Table<MeshData>) -> MeshData>(&mut self, mesh: AssetId, eval: &F) -> (r: Vec<MeshCommand>)
        requires
            total(*eval),
        ensures
            collapse_step(*eval, old(self)@, mesh, final(self)@, r@),
    {
        let ghost v = self@;
        let d = match self.find_def(mesh) {
            Some(d) => d.same(),
            None => {
                return Vec::new();
            },
        };
        let captured = match d.stack.base {
            MeshBase::Captured(_) => true,
            _ => false,
        };
        if captured && d.stack.modifiers.is_empty() {
            return Vec::new();
        }
        if !self.geometry.contains(mesh.0) {
            return Vec::new();
        }
        let back = self.restoring(mesh);
        let none = VertexOverrides::none();
        self.bake(mesh, &d.stack, &none, eval);
        let ghost mid = self@;
        self.put_def(
            mesh,
            MeshDef {
                label: d.label,
                source: d.source,
                editable: d.editable,
                stack: ModifierStack::bare_capture(mesh),
                overrides: d.overrides,
            },
        );
        proof {
            assert(none.blank() && bakes(
                *eval,
                d.stack,
                none,
                v.geometry,
                self@.geometry[mesh.0],
            ));
            assert(self@.assets =~= with_def(v, mesh, mesh_def(self@, mesh)->0).assets);
        }
        lone(back)
    }

    fn bake_one<F: Fn(&ModifierStack, &VertexOverrides, &Table<MeshData>) -> MeshData>(&mut self, mesh: AssetId, eval: &F) -> (r: Vec<MeshCommand>)
        requires
            total(*eval),
        ensures
            bake_one_step(*eval, old(self)@, mesh, final(self)@, r@),
    {
        let ghost v = self@;
        let inv: Vec<MeshCommand> = Vec::new();
        let layer = match self.find_def(mesh) {
            Some(d) => d.overrides.same(),
            None => {
                return inv;
            },
        };
        let back = self.restoring(mesh);
        if let Ok(Some(_)) = self.ensure_authorable(mesh, eval) {
            let ghost m = self@;
            self.set_layer(mesh, layer, eval);
            assert(author_step(*eval, v, mesh, m) && layer_step(
                *eval,
                m,
                mesh,
                mesh_def(v, mesh)->0.overrides,
                self@,
            ));
            return lone(back);
        }
        inv
    }

    fn bake_all<F: Fn(&ModifierStack, &VertexOverrides, &Table<MeshData>) -> MeshData>(&mut self, eval: &F) -> (r: Vec<MeshCommand>)
        requires
            total(*eval),
        ensures
            bake_all_step(*eval, old(self)@, final(self)@, r@),
    {
        let ghost v = self@;
        let row = self.assets.keys();
        let mut inv: Vec<MeshCommand> = Vec::new();
        let mut i: usize = 0;
        let ghost mut states: Seq<StoreView> = seq![v];
        let ghost mut invs: Seq<Seq<MeshCommand>> = Seq::empty();
        while i < row.len()
            invariant
                total(*eval),
                i <= row@.len(),
                bake_run(*eval, row@.take(i as int), states, invs),
                states[0] == v,
                states.last() == self@,
                inv@ == all_of(invs),
            decreases row@.len() - i,
        {
            let ghost m = self@;
            let ghost was = inv@;
            let mut back = self.bake_one(AssetId(row[i]), eval);
            let ghost last = back@;
            inv.append(&mut back);
            proof {
                let before = states;
                let invs_before = invs;
                states = states.push(self@);
                invs = invs.push(last);
                assert(invs.drop_last() =~= invs_before);
                let next = row@.take(i + 1);
                assert forall|j: int| 0 <= j < next.len() implies #[trigger] bake_one_step(
                    *eval,
                    states[j],
                    AssetId(next[j]),
                    states[j + 1],
                    invs[j],
                ) by {
                    if j < i {
                        assert(bake_one_step(
                            *eval,
                            before[j],
                            AssetId(row@.take(i as int)[j]),
                            before[j + 1],
                            invs_before[j],
                        ));
                    }
                }
            }
            i += 1;
        }
        proof {
            assert(row@.take(i as int) =~= row@);
            assert(bake_row_step(*eval, v, row@, self@, inv@));
            assert(row@.to_set() =~= v.assets.dom()) by {
                assert forall|k: u128| row@.to_set().contains(k) == v.assets.dom().contains(k) by {
                    assert(row@.contains(k) == v.assets.dom().contains(k));
                }
            }
        }
        inv
    }

    fn modifiers_changed<F: Fn(&ModifierStack, &VertexOverrides, &Table<MeshData>) -> MeshData>(
        &mut self,
        mesh: AssetId,
        base: MeshBase,
        modifiers: List<Modifier>,
        eval: &F,
    ) -> (r: Vec<MeshCommand>)
        requires
            total(*eval),
        ensures
            exists|stack: ModifierStack|
                stack.base == base && stack.modifiers@ == modifiers@ && #[trigger] stack_step(
                    *eval,
                    old(self)@,
                    mesh,
                    stack,
                    final(self)@,
                ) && stack_inverse(old(self)@, mesh, stack, r@),
    {
        self.apply_mesh_stack(mesh, ModifierStack { base, modifiers }, eval)
    }

    /// Applies an edit of meshes. Hands back the commands that take it back, in
    /// the order in which they are to be applied.
    pub fn apply_mesh<F: Fn(&ModifierStack, &VertexOverrides, &Table<MeshData>) -> MeshData>(
        &mut self,
        cmd: MeshCommand,
        sel: &VertexSelections,
        eval: &F,
    ) -> (r: Result<Vec<MeshCommand>, EditorError>)
        requires
            total(*eval),
        ensures
            mesh_step(*eval, sel@, old(self)@, cmd, final(self)@, as_seq(r)),
    {
        let pick: Option<(AssetId, List<u32>)> = match &cmd {
            MeshCommand::SetVertexPositions { mesh, pick, .. }
            | MeshCommand::PaintVertexColors { mesh, pick, .. }
            | MeshCommand::SetVertexNormals { mesh, pick, .. }
            | MeshCommand::SetVertexUvs { mesh, pick, .. } => {
                match sel.resolve_vertex_selection_or(pick.selection, pick.indices.clone()) {
                    Ok(l) => Some((*mesh, l)),
                    Err(e) => {
                        return Err(e);
                    },
                }
            },
            MeshCommand::SetVertexOverrides { mesh, .. } => Some((*mesh, List::empty())),
            _ => None,
        };
        if let Some((mesh, picked)) = pick {
            return self.relayer(mesh, &cmd, &picked, eval);
        }
        match cmd {
            MeshCommand::SetMeshData { mesh, data, allow_empty } => self.set_data(
                mesh,
                data,
                allow_empty,
            ),
            MeshCommand::SetMeshModifiers { mesh, stack } => Ok(
                self.apply_mesh_stack(mesh, stack, eval),
            ),
            MeshCommand::AddModifier { mesh, modifier } => match self.mesh_stack(mesh) {
                Ok(stack) => {
                    let modifiers = stack.modifiers.push(modifier);
                    Ok(self.modifiers_changed(mesh, stack.base, modifiers, eval))
                },
                Err(e) => Err(e),
            },
            MeshCommand::SetModifier { mesh, index, modifier } => match self.mesh_stack(mesh) {
                Ok(stack) => {
                    let i = index as usize;
                    let count = stack.modifiers.len();
                    if i >= count {
                        return Err(EditorError::ModifierOutOfRange { index, mesh, count });
                    }
                    let modifiers = stack.modifiers.with(i, modifier);
                    Ok(self.modifiers_changed(mesh, stack.base, modifiers, eval))
                },
                Err(e) => Err(e),
            },
            MeshCommand::RemoveModifier { mesh, index } => match self.mesh_stack(mesh) {
                Ok(stack) => {
                    let i = index as usize;
                    let count = stack.modifiers.len();
                    if i >= count {
                        return Err(EditorError::ModifierOutOfRange { index, mesh, count });
                    }
                    let modifiers = stack.modifiers.without(i);
                    Ok(self.modifiers_changed(mesh, stack.base, modifiers, eval))
                },
                Err(e) => Err(e),
            },
            MeshCommand::SoftTransformVertices { mesh, pick, targets } => {
                match sel.resolve_vertex_selection_or(pick.selection, pick.indices) {
                    Ok(_) => self.soft_transform_mesh(mesh, &targets, eval),
                    Err(e) => Err(e),
                }
            },
            MeshCommand::CollapseMeshStack { mesh } => Ok(self.collapse(mesh, eval)),
            MeshCommand::BakeAll => Ok(self.bake_all(eval)),
            MeshCommand::RestoreMesh { mesh, former } => {
                let inv = self.restore(mesh, former);
                assert(mesh_def(old(self)@, mesh) is None ==> inv@ =~= seq![]);
                Ok(inv)
            },
            _ => Ok(Vec::new()),
        }
    }
}

/// A refused edit of meshes changes nothing.
pub proof fn lemma_refused_mesh_edit<
    F: Fn(&ModifierStack, &VertexOverrides, &Table<MeshData>) -> MeshData,
>(
    eval: F,
    sel: SelectionsView,
    v: StoreView,
    cmd: MeshCommand,
    w: StoreView,
    e: EditorError,
)
    requires
        mesh_step(eval, sel, v, cmd, w, Err(e)),
    ensures
        w == v,
{
}

/// A recipe that is stored never reads the geometry that its own bake writes and
/// works on it, so that no modifier is applied twice; and a bake leaves the
/// snapshot that such a recipe reads as it is.
pub proof fn law_modifiers_do_not_compound<
    F: Fn(&ModifierStack, &VertexOverrides, &Table<MeshData>) -> MeshData,
>(eval: F, v: StoreView, mesh: AssetId, stack: ModifierStack, w: StoreView)
    requires
        mesh_def(v, mesh) is Some,
        stack_step(eval, v, mesh, stack, w),
    ensures
        !feeds_on_itself(mesh_def(w, mesh)->0.stack, mesh),
        v.geometry.contains_key(snapshot_id(mesh).0) ==> w.geometry.contains_key(
            snapshot_id(mesh).0,
        ) && w.geometry[snapshot_id(mesh).0] == v.geometry[snapshot_id(mesh).0],
        feeds_on_itself(stack, mesh) && v.geometry.contains_key(mesh.0)
            && !v.geometry.contains_key(snapshot_id(mesh).0) ==> w.geometry[snapshot_id(mesh).0]
            == v.geometry[mesh.0],
{
    law_snapshot_ids_are_distinct(mesh, mesh);
}

/// A recipe with another base starts from a clean layer; one with the same base
/// keeps what is painted.
pub proof fn law_new_base_drops_the_layer<
    F: Fn(&ModifierStack, &VertexOverrides, &Table<MeshData>) -> MeshData,
>(eval: F, v: StoreView, mesh: AssetId, stack: ModifierStack, w: StoreView)
    requires
        mesh_def(v, mesh) is Some,
        stack_step(eval, v, mesh, stack, w),
    ensures
        !bases_alike(stack.base, mesh_def(v, mesh)->0.stack.base) ==> mesh_def(
            w,
            mesh,
        )->0.overrides.blank(),
        bases_alike(stack.base, mesh_def(v, mesh)->0.stack.base) ==> mesh_def(w, mesh)->0.overrides
            == mesh_def(v, mesh)->0.overrides,
{
}

/// Whether edits of meshes that all go through lead from store to store.
pub open spec fn mesh_run<F: Fn(&ModifierStack, &VertexOverrides, &Table<MeshData>) -> MeshData>(
    eval: F,
    sel: SelectionsView,
    states: Seq<StoreView>,
    cmds: Seq<MeshCommand>,
) -> bool {
    &&& states.len() == cmds.len() + 1
    &&& forall|i: int|
        0 <= i < cmds.len() ==> mesh_leads(eval, sel, states[i], #[trigger] cmds[i], states[i + 1])
}

/// Whether an edit of meshes goes through and leads from one store to another.
pub open spec fn mesh_leads<F: Fn(&ModifierStack, &VertexOverrides, &Table<MeshData>) -> MeshData>(
    eval: F,
    sel: SelectionsView,
    a: StoreView,
    cmd: MeshCommand,
    b: StoreView,
) -> bool {
    exists|inv: Seq<MeshCommand>| #[trigger] mesh_step(eval, sel, a, cmd, b, Ok(inv))
}

/// Whether an edit of meshes is one of the recipe.
pub open spec fn recipe_edit(cmd: MeshCommand) -> bool {
    cmd is SetMeshModifiers || cmd is AddModifier || cmd is SetModifier || cmd is RemoveModifier
}

proof fn lemma_stack_back<
    F: Fn(&ModifierStack, &VertexOverrides, &Table<MeshData>) -> MeshData,
>(
    eval: F,
    v: StoreView,
    mesh: AssetId,
    stack: ModifierStack,
    w: StoreView,
    inv: Seq<MeshCommand>,
    sel: SelectionsView,
    a: StoreView,
    x: StoreView,
)
    requires
        stack_step(eval, v, mesh, stack, w),
        stack_inverse(v, mesh, stack, inv),
        inv.len() > 0,
        a.assets == w.assets,
        mesh_leads(eval, sel, a, inv[0], x),
    ensures
        inv.len() == 1,
        x.assets == v.assets,
{
    let d = mesh_def(v, mesh)->0;
    let d2 = mesh_def(w, mesh)->0;
    assert(mesh_def(a, mesh) == mesh_def(w, mesh));
    let rr = choose|rr: Seq<MeshCommand>| #[trigger] mesh_step(eval, sel, a, inv[0], x, Ok(rr));
    assert(x.assets =~= v.assets);
}

proof fn lemma_restored<F: Fn(&ModifierStack, &VertexOverrides, &Table<MeshData>) -> MeshData>(
    eval: F,
    v: StoreView,
    mesh: AssetId,
    w: StoreView,
    sel: SelectionsView,
    a: StoreView,
    x: StoreView,
)
    requires
        mesh_def(v, mesh) is Some,
        mesh_def(w, mesh) is Some,
        w.assets == with_def(v, mesh, mesh_def(w, mesh)->0).assets,
        a.assets == w.assets,
        mesh_leads(eval, sel, a, restore_of(v, mesh), x),
    ensures
        x.assets == v.assets,
        a == w && w.geometry == v.geometry.insert(mesh.0, w.geometry[mesh.0]) ==> x == v,
{
    assert(mesh_def(a, mesh) == mesh_def(w, mesh));
    let rr = choose|rr: Seq<MeshCommand>| #[trigger]
        mesh_step(eval, sel, a, restore_of(v, mesh), x, Ok(rr));
    assert(x.assets =~= v.assets);
    if a == w && w.geometry == v.geometry.insert(mesh.0, w.geometry[mesh.0]) {
        law_snapshot_ids_are_distinct(mesh, mesh);
        assert(x.geometry =~= v.geometry);
    }
}

proof fn lemma_bake_one_changes<
    F: Fn(&ModifierStack, &VertexOverrides, &Table<MeshData>) -> MeshData,
>(eval: F, v: StoreView, mesh: AssetId, w: StoreView, inv: Seq<MeshCommand>)
    requires
        bake_one_step(eval, v, mesh, w, inv),
    ensures
        w.assets.dom() == v.assets.dom(),
        forall|k: u128| k != mesh.0 && v.assets.contains_key(k) ==> #[trigger] w.assets[k]
            == v.assets[k],
        inv.len() == 0 ==> w == v,
        inv.len() > 0 ==> {
            &&& inv == seq![restore_of(v, mesh)]
            &&& mesh_def(v, mesh) is Some
            &&& mesh_def(w, mesh) is Some
            &&& w.assets == with_def(v, mesh, mesh_def(w, mesh)->0).assets
        },
{
    if let Some(d) = mesh_def(v, mesh) {
        if !d.stack.is_bare_capture(mesh) {
            let m = choose|m: StoreView| #[trigger]
                author_step(eval, v, mesh, m) && layer_step(eval, m, mesh, d.overrides, w);
            assert(mesh_def(m, mesh) is Some);
            assert(w.assets =~= with_def(v, mesh, mesh_def(w, mesh)->0).assets);
        }
    }
    assert(w.assets.dom() =~= v.assets.dom());
}

proof fn lemma_bake_prefix<
    F: Fn(&ModifierStack, &VertexOverrides, &Table<MeshData>) -> MeshData,
>(eval: F, row: Seq<u128>, states: Seq<StoreView>, invs: Seq<Seq<MeshCommand>>, n: int)
    requires
        bake_run(eval, row, states, invs),
        0 <= n <= row.len(),
    ensures
        states[n].assets.dom() == states[0].assets.dom(),
        forall|k: u128|
            states[0].assets.contains_key(k) && !row.take(n).contains(k)
                ==> #[trigger] states[n].assets[k] == states[0].assets[k],
    decreases n,
{
    if n > 0 {
        lemma_bake_prefix(eval, row, states, invs, n - 1);
        assert(bake_one_step(eval, states[n - 1], AssetId(row[n - 1]), states[n - 1 + 1], invs[n - 1]));
        lemma_bake_one_changes(eval, states[n - 1], AssetId(row[n - 1]), states[n], invs[n - 1]);
        assert forall|k: u128|
            states[0].assets.contains_key(k) && !row.take(n).contains(k) implies #[trigger] states[n].assets[k]
            == states[0].assets[k] by {
            assert(row.take(n)[n - 1] == row[n - 1]);
            assert(!row.take(n - 1).contains(k)) by {
                let front = row.take(n - 1);
                if front.contains(k) {
                    let j = choose|j: int| 0 <= j < front.len() && front[j] == k;
                    assert(row.take(n)[j] == k);
                }
            }
        }
    }
}

proof fn lemma_mesh_run_split<
    F: Fn(&ModifierStack, &VertexOverrides, &Table<MeshData>) -> MeshData,
>(
    eval: F,
    sel: SelectionsView,
    states: Seq<StoreView>,
    front: Seq<MeshCommand>,
    back: Seq<MeshCommand>,
)
    requires
        mesh_run(eval, sel, states, front + back),
    ensures
        mesh_run(eval, sel, states.take(front.len() as int + 1), front),
        mesh_run(eval, sel, states.skip(front.len() as int), back),
{
    let n = front.len() as int;
    let all = front + back;
    let first = states.take(n + 1);
    let last = states.skip(n);
    assert forall|i: int| 0 <= i < front.len() implies mesh_leads(
        eval,
        sel,
        first[i],
        #[trigger] front[i],
        first[i + 1],
    ) by {
        assert(all[i] == front[i]);
    }
    assert forall|i: int| 0 <= i < back.len() implies mesh_leads(
        eval,
        sel,
        last[i],
        #[trigger] back[i],
        last[i + 1],
    ) by {
        assert(all[n + i] == back[i]);
        assert(mesh_leads(eval, sel, states[n + i], all[n + i], states[n + i + 1]));
    }
}

/// Giving back what baking a row of meshes handed back, up to the first `n`.
proof fn lemma_bakes_back<
    F: Fn(&ModifierStack, &VertexOverrides, &Table<MeshData>) -> MeshData,
>(
    eval: F,
    row: Seq<u128>,
    states: Seq<StoreView>,
    invs: Seq<Seq<MeshCommand>>,
    n: int,
    sel: SelectionsView,
    back: Seq<StoreView>,
)
    requires
        bake_run(eval, row, states, invs),
        row.no_duplicates(),
        0 <= n <= row.len(),
        mesh_run(eval, sel, back, all_of(invs.take(n))),
        back[0].assets.dom() == states[0].assets.dom(),
        forall|k: u128|
            states[0].assets.contains_key(k) && row.take(n).contains(k)
                ==> #[trigger] back[0].assets[k] == states[n].assets[k],
    ensures
        back.last().assets.dom() == states[0].assets.dom(),
        forall|k: u128|
            states[0].assets.contains_key(k) ==> #[trigger] back.last().assets[k]
                == if row.take(n).contains(k) {
                states[0].assets[k]
            } else {
                back[0].assets[k]
            },
    decreases n,
{
    if n > 0 {
        let front = invs.take(n - 1);
        let m = n - 1;
        assert(invs.take(n).drop_last() =~= front);
        let one = invs[m];
        lemma_mesh_run_split(eval, sel, back, all_of(front), one);
        let len = all_of(front).len() as int;
        let first = back.take(len + 1);
        let last = back.skip(len);
        let mesh = AssetId(row[m]);
        assert(bake_one_step(eval, states[m], AssetId(row[m]), states[m + 1], invs[m]));
        lemma_bake_one_changes(eval, states[m], mesh, states[n], one);
        lemma_bake_prefix(eval, row, states, invs, m);
        assert(row.take(n)[m] == row[m]);
        assert(!row.take(m).contains(row[m])) by {
            if row.take(m).contains(row[m]) {
                let j = choose|j: int| 0 <= j < m && row.take(m)[j] == row[m];
                assert(row[j] == row[m]);
            }
        }
        assert forall|k: u128| k != row[m] implies row.take(n).contains(k) == #[trigger] row.take(
            m,
        ).contains(k) by {
            if row.take(n).contains(k) {
                let j = choose|j: int| 0 <= j < n && row.take(n)[j] == k;
                assert(row.take(m)[j] == k);
            }
            if row.take(m).contains(k) {
                let j = choose|j: int| 0 <= j < m && row.take(m)[j] == k;
                assert(row.take(n)[j] == k);
            }
        }
        assert(first[0] == back[0]);
        assert forall|k: u128|
            states[0].assets.contains_key(k) && row.take(m).contains(k) implies #[trigger] first[0].assets[k]
            == states[m].assets[k] by {
            assert(k != row[m]);
            assert(row.take(n).contains(k) == row.take(m).contains(k));
            assert(back[0].assets[k] == states[n].assets[k]);
        }
        lemma_bakes_back(eval, row, states, invs, m, sel, first);
        let c = first.last();
        assert(c == back[len]);
        assert(last[0] == c);
        assert(last.last() == back.last());
        if one.len() == 0 {
            assert(back.last() == c);
            assert forall|k: u128| states[0].assets.contains_key(k) implies #[trigger] back.last().assets[k]
                == if row.take(n).contains(k) {
                states[0].assets[k]
            } else {
                back[0].assets[k]
            } by {
                assert(first.last().assets[k] == if row.take(m).contains(k) {
                    states[0].assets[k]
                } else {
                    back[0].assets[k]
                });
                if k == row[m] {
                    assert(row.take(n).contains(k));
                    assert(back[0].assets[k] == states[n].assets[k]);
                    assert(states[m].assets[k] == states[0].assets[k]);
                } else {
                    assert(row.take(n).contains(k) == row.take(m).contains(k));
                }
            }
        } else {
            assert(mesh_leads(eval, sel, last[0], one[0], last[1]));
            let x = last[1];
            assert(back.last() == x);
            assert(states[0].assets.contains_key(row[m]));
            assert(row.take(n).contains(row[m]));
            assert(first.last().assets[row[m]] == back[0].assets[row[m]]);
            assert(back[0].assets[row[m]] == states[n].assets[row[m]]);
            assert(states[m].assets[row[m]] == states[0].assets[row[m]]);
            assert(mesh_def(c, mesh) == mesh_def(states[n], mesh));
            let rr = choose|rr: Seq<MeshCommand>| #[trigger]
                mesh_step(eval, sel, c, one[0], x, Ok(rr));
            assert(x == restored(c, mesh, former_mesh(states[m], mesh)));
            assert(x.assets[row[m]] == states[0].assets[row[m]]);
            assert(x.assets.dom() =~= states[0].assets.dom());
            assert forall|k: u128| states[0].assets.contains_key(k) implies #[trigger] back.last().assets[k]
                == if row.take(n).contains(k) {
                states[0].assets[k]
            } else {
                back[0].assets[k]
            } by {
                assert(first.last().assets[k] == if row.take(m).contains(k) {
                    states[0].assets[k]
                } else {
                    back[0].assets[k]
                });
                if k != row[m] {
                    assert(row.take(n).contains(k) == row.take(m).contains(k));
                }
            }
        }
    }
}

/// What an edit of meshes hands back leads to the assets before it: every mesh has
/// its recipe and its layer again. Where one mesh was painted, moved or baked, its
/// geometry is that of before too.
pub proof fn law_mesh_edit_is_undone<
    F: Fn(&ModifierStack, &VertexOverrides, &Table<MeshData>) -> MeshData,
>(
    eval: F,
    sel: SelectionsView,
    v: StoreView,
    cmd: MeshCommand,
    w: StoreView,
    inv: Seq<MeshCommand>,
    later: SelectionsView,
    states: Seq<StoreView>,
)
    requires
        mesh_step(eval, sel, v, cmd, w, Ok(inv)),
        inv.len() > 0,
        mesh_run(eval, later, states, inv),
        states[0].assets == w.assets,
    ensures
        states.last().assets == v.assets,
        states[0] == w && !recipe_edit(cmd) && !(cmd is BakeAll || cmd is RestoreMesh)
            ==> states.last() == v,
{
    let a = states[0];
    assert(mesh_leads(eval, later, states[0], inv[0], states[1]));
    let x = states[1];
    match cmd {
        MeshCommand::SetMeshData { mesh, .. } => {
            let rr = choose|rr: Seq<MeshCommand>| #[trigger]
                mesh_step(eval, later, a, inv[0], x, Ok(rr));
            if a == w {
                assert(x.geometry =~= v.geometry);
            }
        },
        MeshCommand::SetMeshModifiers { mesh, stack } => {
            lemma_stack_back(eval, v, mesh, stack, w, inv, later, a, x);
        },
        MeshCommand::AddModifier { mesh, modifier } => {
            let d = mesh_def(v, mesh)->0;
            let stack = choose|stack: ModifierStack|
                stack.base == d.stack.base && stack.modifiers@ == d.stack.modifiers@.push(modifier)
                    && #[trigger] stack_step(eval, v, mesh, stack, w) && stack_inverse(
                    v,
                    mesh,
                    stack,
                    inv,
                );
            lemma_stack_back(eval, v, mesh, stack, w, inv, later, a, x);
        },
        MeshCommand::SetModifier { mesh, index, modifier } => {
            let d = mesh_def(v, mesh)->0;
            let stack = choose|stack: ModifierStack|
                stack.base == d.stack.base && stack.modifiers@ == d.stack.modifiers@.update(
                    index as int,
                    modifier,
                ) && #[trigger] stack_step(eval, v, mesh, stack, w) && stack_inverse(
                    v,
                    mesh,
                    stack,
                    inv,
                );
            lemma_stack_back(eval, v, mesh, stack, w, inv, later, a, x);
        },
        MeshCommand::RemoveModifier { mesh, index } => {
            let d = mesh_def(v, mesh)->0;
            let stack = choose|stack: ModifierStack|
                stack.base == d.stack.base && stack.modifiers@ == d.stack.modifiers@.remove(
                    index as int,
                ) && #[trigger] stack_step(eval, v, mesh, stack, w) && stack_inverse(
                    v,
                    mesh,
                    stack,
                    inv,
                );
            lemma_stack_back(eval, v, mesh, stack, w, inv, later, a, x);
        },
        MeshCommand::BakeAll => {
            let row = choose|row: Seq<u128>|
                row.no_duplicates() && row.to_set() == v.assets.dom() && #[trigger] bake_row_step(
                    eval,
                    v,
                    row,
                    w,
                    inv,
                );
            let (mids, invs) = choose|mids: Seq<StoreView>, invs: Seq<Seq<MeshCommand>>| #[trigger]
                bake_run(eval, row, mids, invs) && mids[0] == v && mids.last() == w && inv
                    == all_of(invs);
            let n = row.len() as int;
            assert(invs.take(n) =~= invs);
            assert(row.take(n) =~= row);
            lemma_bake_prefix(eval, row, mids, invs, n);
            lemma_bakes_back(eval, row, mids, invs, n, later, states);
            assert forall|k: u128| v.assets.contains_key(k) implies #[trigger] states.last().assets[k]
                == v.assets[k] by {
                assert(row.to_set().contains(k));
            }
            assert(states.last().assets =~= v.assets);
        },
        MeshCommand::RestoreMesh { mesh, former } => {
            lemma_restored(eval, v, mesh, w, later, a, x);
        },
        MeshCommand::CollapseMeshStack { mesh } => {
            lemma_restored(eval, v, mesh, w, later, a, x);
        },
        MeshCommand::SetVertexPositions { mesh, .. }
        | MeshCommand::PaintVertexColors { mesh, .. }
        | MeshCommand::SetVertexNormals { mesh, .. }
        | MeshCommand::SetVertexUvs { mesh, .. }
        | MeshCommand::SetVertexOverrides { mesh, .. } => {
            let layer = mesh_def(w, mesh)->0.overrides;
            let m = choose|m: StoreView| #[trigger]
                author_step(eval, v, mesh, m) && layer_step(eval, m, mesh, layer, w);
            lemma_layered(eval, v, mesh, m, layer, w);
            lemma_restored(eval, v, mesh, w, later, a, x);
        },
        MeshCommand::SoftTransformVertices { mesh, targets, .. } => {
            let m = choose|m: StoreView| #[trigger]
                author_step(eval, v, mesh, m) && m.geometry.contains_key(mesh.0) && layer_step(
                    eval,
                    m,
                    mesh,
                    mesh_def(w, mesh)->0.overrides,
                    w,
                );
            lemma_layered(eval, v, mesh, m, mesh_def(w, mesh)->0.overrides, w);
            lemma_restored(eval, v, mesh, w, later, a, x);
        },
    }
}

proof fn lemma_layered<F: Fn(&ModifierStack, &VertexOverrides, &Table<MeshData>) -> MeshData>(
    eval: F,
    v: StoreView,
    mesh: AssetId,
    m: StoreView,
    layer: VertexOverrides,
    w: StoreView,
)
    requires
        mesh_def(v, mesh) is Some,
        author_step(eval, v, mesh, m),
        layer_step(eval, m, mesh, layer, w),
    ensures
        mesh_def(w, mesh) is Some,
        w.assets == with_def(v, mesh, mesh_def(w, mesh)->0).assets,
        w.geometry == v.geometry.insert(mesh.0, w.geometry[mesh.0]),
{
    assert(mesh_def(m, mesh) is Some);
    assert(w.assets =~= with_def(v, mesh, mesh_def(w, mesh)->0).assets);
    assert(w.geometry =~= v.geometry.insert(mesh.0, w.geometry[mesh.0]));
}

} // verus!
