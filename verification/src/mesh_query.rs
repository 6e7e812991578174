//! Questions about the geometry of nodes.
use crate::assets::{AssetSource, MeshBase, MeshData, MeshDef, Modifier, ModifierStack, VertexOverrides};
use crate::bounds::{aabb_from_positions, along, is_greatest, is_least, Aabb, Axis};
use crate::collider_wire::{edge, HullEdge};
use crate::ids::{AssetId, NodeId};
use crate::list::{List, Same};
use crate::mesh_edit::{mesh_def, MeshStore, StoreView};
use crate::node::NodeKind;
use crate::paging::{page_of, page_window, paged};
use crate::query_errors::QueryError;
use crate::scene_edit::node_is_skinned;
use crate::selections::{handle_after, SelectionsView, VertexSelections};
use crate::tree::{find, find_by_id, forest, Node, Tree};
use crate::values::{Vec2, Vec3, Vec4, F32};
use vstd::prelude::*;

verus! {

/// Which vertices of a mesh are meant, by what they are like.
pub enum VertexPredicate {
    /// Those that edges lead to from the given ones.
    ConnectedToSeed { seed: List<u32> },
    NormalDir { dir: Vec3, threshold: F32 },
    AxisGreater { axis: u8, value: F32 },
    AxisLess { axis: u8, value: F32 },
    /// The topmost part along an axis, as a fraction between zero and one.
    TopPercent { axis: u8, percent: F32 },
    TopCount { axis: u8, count: u32 },
    WithinRadius { center: Vec3, radius: F32 },
    WithinAabb { min: Vec3, max: Vec3 },
}

/// What is asked of the mesh tools to find vertices.
pub enum Selector {
    ConnectedComponentOf { seed: List<u32> },
    ByNormalDir { dir: Vec3, threshold: F32 },
    /// On the far side of a value along an axis, or on the near side.
    ByAxis { axis: usize, greater: bool, value: F32 },
    /// `clamps` where the fraction is outside its range, so that it is cut to it.
    TopPercentAxis { axis: usize, percent: F32, clamps: bool },
    TopCountAxis { axis: usize, count: u32 },
    WithinRadius { center: Vec3, radius: F32 },
    WithinAabb { min: Vec3, max: Vec3 },
}

/// What the mesh tools are asked for a predicate.
pub open spec fn selector_of(p: VertexPredicate) -> Selector {
    match p {
        VertexPredicate::ConnectedToSeed { seed } => Selector::ConnectedComponentOf { seed },
        VertexPredicate::NormalDir { dir, threshold } => Selector::ByNormalDir { dir, threshold },
        VertexPredicate::AxisGreater { axis, value } => Selector::ByAxis {
            axis: axis as usize,
            greater: true,
            value,
        },
        VertexPredicate::AxisLess { axis, value } => Selector::ByAxis {
            axis: axis as usize,
            greater: false,
            value,
        },
        VertexPredicate::TopPercent { axis, percent } => Selector::TopPercentAxis {
            axis: axis as usize,
            percent,
            clamps: !percent.in_unit(),
        },
        VertexPredicate::TopCount { axis, count } => Selector::TopCountAxis {
            axis: axis as usize,
            count,
        },
        VertexPredicate::WithinRadius { center, radius } => Selector::WithinRadius {
            center,
            radius,
        },
        VertexPredicate::WithinAabb { min, max } => Selector::WithinAabb { min, max },
    }
}

/// What the mesh tools are asked for a predicate.
pub fn select_vertices_by_predicate(p: VertexPredicate) -> (s: Selector)
    ensures
        s == selector_of(p),
{
    match p {
        VertexPredicate::ConnectedToSeed { seed } => Selector::ConnectedComponentOf { seed },
        VertexPredicate::NormalDir { dir, threshold } => Selector::ByNormalDir { dir, threshold },
        VertexPredicate::AxisGreater { axis, value } => Selector::ByAxis {
            axis: axis as usize,
            greater: true,
            value,
        },
        VertexPredicate::AxisLess { axis, value } => Selector::ByAxis {
            axis: axis as usize,
            greater: false,
            value,
        },
        VertexPredicate::TopPercent { axis, percent } => Selector::TopPercentAxis {
            axis: axis as usize,
            percent,
            clamps: !percent.is_in_unit(),
        },
        VertexPredicate::TopCount { axis, count } => Selector::TopCountAxis {
            axis: axis as usize,
            count,
        },
        VertexPredicate::WithinRadius { center, radius } => Selector::WithinRadius {
            center,
            radius,
        },
        VertexPredicate::WithinAabb { min, max } => Selector::WithinAabb { min, max },
    }
}

/// How many edges of a layout are shown where no limit is given.
pub const DEFAULT_UV_EDGE_PAGE: u32 = 1000;

/// Whether a node is skinned.
pub open spec fn skinned(f: Seq<Tree>, node: NodeId) -> bool {
    find(f, node) matches Some(t) && t.data.kind is SkinnedMesh
}

/// The mesh asset of a node that is a mesh.
pub open spec fn mesh_of(f: Seq<Tree>, node: NodeId) -> Option<AssetId> {
    match find(f, node) {
        Some(t) => match t.data.kind {
            NodeKind::Mesh { mesh, .. } => Some(mesh),
            _ => None,
        },
        None => None,
    }
}

/// The geometry of a node, where it has any.
pub open spec fn geometry_of(f: Seq<Tree>, v: StoreView, node: NodeId) -> Option<MeshData> {
    match mesh_of(f, node) {
        Some(mesh) => if v.geometry.contains_key(mesh.0) {
            Some(v.geometry[mesh.0])
        } else {
            None
        },
        None => None,
    }
}

/// The recipe of a node's mesh, where it has one.
pub open spec fn def_of(f: Seq<Tree>, v: StoreView, node: NodeId) -> Option<MeshDef> {
    match mesh_of(f, node) {
        Some(mesh) => mesh_def(v, mesh),
        None => None,
    }
}

fn find_mesh(nodes: &Vec<Node>, node: NodeId) -> (r: Option<AssetId>)
    ensures
        r == mesh_of(forest(nodes@), node),
{
    match find_by_id(nodes, node) {
        Some(n) => match &n.data.kind {
            NodeKind::Mesh { mesh, .. } => Some(*mesh),
            _ => None,
        },
        None => None,
    }
}

/// The geometry of a node, where it has any.
pub fn node_mesh<'a>(nodes: &Vec<Node>, store: &'a MeshStore, node: NodeId) -> (r: Option<&'a MeshData>)
    ensures
        match r {
            Some(d) => geometry_of(forest(nodes@), store@, node) == Some(*d),
            None => geometry_of(forest(nodes@), store@, node) is None,
        },
{
    match find_mesh(nodes, node) {
        Some(mesh) => store.geometry.get(mesh.0),
        None => None,
    }
}

/// The geometry of a node that is to be measured, or why there is none. A skinned
/// node is not refused as such.
pub fn measured_mesh<'a>(nodes: &Vec<Node>, store: &'a MeshStore, node: NodeId) -> (r: Result<
    &'a MeshData,
    QueryError,
>)
    ensures
        match r {
            Ok(d) => geometry_of(forest(nodes@), store@, node) == Some(*d),
            Err(e) => geometry_of(forest(nodes@), store@, node) is None && e == QueryError::NoMesh(
                node,
            ),
        },
{
    match node_mesh(nodes, store, node) {
        Some(d) => Ok(d),
        None => Err(QueryError::NoMesh(node)),
    }
}

fn find_mesh_def<'a>(nodes: &Vec<Node>, store: &'a MeshStore, node: NodeId) -> (r: Option<&'a MeshDef>)
    ensures
        match r {
            Some(d) => def_of(forest(nodes@), store@, node) == Some(*d),
            None => def_of(forest(nodes@), store@, node) is None,
        },
{
    match find_mesh(nodes, node) {
        Some(mesh) => store.find_def(mesh),
        None => None,
    }
}

/// Why the geometry of a node cannot be asked about, if so.
pub open spec fn mesh_refusal(f: Seq<Tree>, v: StoreView, node: NodeId) -> Option<QueryError> {
    if skinned(f, node) {
        Some(QueryError::SkinnedNode(node))
    } else if geometry_of(f, v, node) is None {
        Some(QueryError::NoMesh(node))
    } else {
        None
    }
}

/// What is shown of a selection.
pub struct SelectionPage {
    pub offset: u32,
    pub indices: Vec<u32>,
}

/// A selection: how many vertices it has, and its handle or a window onto it.
pub struct SelectionReport {
    pub count: usize,
    pub id: Option<u32>,
    pub page: Option<SelectionPage>,
}

/// How a selection is reported.
#[derive(Clone, Copy, PartialEq, Eq, Structural, Debug)]
pub struct ReportStyle {
    /// Whether the selection is kept under a handle.
    pub store: bool,
    pub count_only: bool,
    pub offset: Option<u32>,
    pub limit: Option<u32>,
}

/// An offset, or the start.
pub open spec fn offset_or_zero(offset: Option<u32>) -> u32 {
    match offset {
        Some(o) => o,
        None => 0,
    }
}

fn offset_of(offset: Option<u32>) -> (r: u32)
    ensures
        r == offset_or_zero(offset),
{
    match offset {
        Some(o) => o,
        None => 0,
    }
}

/// Whether a report is that of a selection.
pub open spec fn reports_selection(
    s: SelectionsView,
    found: Seq<u32>,
    style: ReportStyle,
    t: SelectionsView,
    r: SelectionReport,
) -> bool {
    &&& r.count == found.len()
    &&& if style.store {
        &&& r.id == Some(s.next)
        &&& r.page is None
        &&& t == (SelectionsView {
            rows: s.rows.insert(s.next as u128, found),
            next: handle_after(s.next),
        })
    } else {
        &&& r.id is None
        &&& t == s
        &&& if style.count_only {
            r.page is None
        } else {
            &&& r.page is Some
            &&& r.page->0.offset == offset_or_zero(style.offset)
            &&& r.page->0.indices@ == paged(found, style.offset, style.limit)
        }
    }
}

/// Reports the vertices of a node that a predicate selects: kept under a handle,
/// counted, or a window onto them. `found` are the vertices.
pub fn select_vertices_where(
    nodes: &Vec<Node>,
    store: &MeshStore,
    selections: &mut VertexSelections,
    node: NodeId,
    found: List<u32>,
    style: ReportStyle,
) -> (r: Result<SelectionReport, QueryError>)
    ensures
        match r {
            Ok(report) => mesh_refusal(forest(nodes@), store@, node) is None && reports_selection(
                old(selections)@,
                found@,
                style,
                final(selections)@,
                report,
            ),
            Err(e) => mesh_refusal(forest(nodes@), store@, node) == Some(e)
                && final(selections)@ == old(selections)@,
        },
{
    if node_is_skinned(nodes, node) {
        return Err(QueryError::SkinnedNode(node));
    }
    if node_mesh(nodes, store, node).is_none() {
        return Err(QueryError::NoMesh(node));
    }
    let count: usize = found.len();
    if style.store {
        let id = selections.store_vertex_selection(found);
        Ok(SelectionReport { count, id: Some(id), page: None })
    } else if style.count_only {
        Ok(SelectionReport { count, id: None, page: None })
    } else {
        let indices = page_of(&found, style.offset, style.limit);
        Ok(
            SelectionReport {
                count,
                id: None,
                page: Some(SelectionPage { offset: offset_of(style.offset), indices }),
            },
        )
    }
}

/// Why a mesh asset has no recipe, if so.
pub open spec fn asset_refusal(v: StoreView, mesh: AssetId) -> Option<QueryError> {
    if !v.assets.contains_key(mesh.0) {
        Some(QueryError::NoAsset(mesh))
    } else if !(v.assets[mesh.0].source is Mesh) {
        Some(QueryError::NotAMeshAsset(mesh))
    } else {
        None
    }
}

/// The recipe of a mesh asset.
pub fn mesh_modifiers(store: &MeshStore, mesh: AssetId) -> (r: Result<ModifierStack, QueryError>)
    ensures
        match r {
            Ok(stack) => asset_refusal(store@, mesh) is None && stack
                == store@.assets[mesh.0].source->Mesh_0.stack,
            Err(e) => asset_refusal(store@, mesh) == Some(e),
        },
{
    match store.assets.get(mesh.0) {
        Some(e) => match &e.source {
            AssetSource::Mesh(d) => Ok(d.stack.same()),
            _ => Err(QueryError::NotAMeshAsset(mesh)),
        },
        None => Err(QueryError::NoAsset(mesh)),
    }
}

/// Which values of a vertex were painted; the others come from the recipe.
#[derive(Clone, Copy, PartialEq, Eq, Structural, Debug)]
pub struct VertexSource {
    pub position: bool,
    pub normal: bool,
    pub color: bool,
    pub uv: bool,
}

/// The values of a vertex; those that the mesh lacks are left out.
#[derive(Clone, Copy, PartialEq, Eq, Structural, Debug)]
pub struct VertexRow {
    pub index: u32,
    pub position: Option<Vec3>,
    pub normal: Option<Vec3>,
    pub color: Option<Vec4>,
    pub uv: Option<Vec2>,
    pub source: Option<VertexSource>,
}

/// The item at a place, where the row reaches so far.
pub open spec fn item<T>(row: Seq<T>, i: u32) -> Option<T> {
    if i < row.len() {
        Some(row[i as int])
    } else {
        None
    }
}

/// The item at a place of a row that may be missing.
pub open spec fn item_of<T>(row: Option<List<T>>, i: u32) -> Option<T> {
    match row {
        Some(l) => item(l@, i),
        None => None,
    }
}

/// Which values of a vertex were painted.
pub open spec fn painted_of(ov: VertexOverrides, i: u32) -> VertexSource {
    VertexSource {
        position: ov.positions@.contains_key(i),
        normal: ov.normals@.contains_key(i),
        color: ov.colors@.contains_key(i),
        uv: ov.uvs@.contains_key(i),
    }
}

/// The values of a vertex.
pub open spec fn vertex_row(d: MeshData, ov: Option<VertexOverrides>, i: u32) -> VertexRow {
    VertexRow {
        index: i,
        position: item(d.positions@, i),
        normal: item_of(d.normals, i),
        color: item_of(d.colors, i),
        uv: item(d.uvs@, i),
        source: match ov {
            Some(o) => Some(painted_of(o, i)),
            None => None,
        },
    }
}

fn take_item<T: Same>(row: &List<T>, i: u32) -> (r: Option<T>)
    ensures
        r == item(row@, i),
{
    if (i as usize) < row.len() {
        Some(row.at(i as usize).same())
    } else {
        None
    }
}

fn make_vertex_row(d: &MeshData, ov: Option<&VertexOverrides>, i: u32) -> (r: VertexRow)
    ensures
        r == vertex_row(
            *d,
            match ov {
                Some(o) => Some(*o),
                None => None,
            },
            i,
        ),
{
    let normal = match &d.normals {
        Some(l) => take_item(l, i),
        None => None,
    };
    let color = match &d.colors {
        Some(l) => take_item(l, i),
        None => None,
    };
    let source = match ov {
        Some(o) => Some(
            VertexSource {
                position: o.positions.contains(i),
                normal: o.normals.contains(i),
                color: o.colors.contains(i),
                uv: o.uvs.contains(i),
            },
        ),
        None => None,
    };
    VertexRow {
        index: i,
        position: take_item(&d.positions, i),
        normal,
        color,
        uv: take_item(&d.uvs, i),
        source,
    }
}

/// The values of some vertices.
pub struct VertexReport {
    pub vertex_count: usize,
    pub selected: usize,
    pub offset: u32,
    pub vertices: Vec<VertexRow>,
}

/// The vertices that are asked about: those under the handle where one is named.
pub open spec fn asked(s: SelectionsView, selection: Option<u32>, indices: Seq<u32>) -> Option<Seq<u32>> {
    match selection {
        Some(id) => if s.rows.contains_key(id as u128) {
            Some(s.rows[id as u128])
        } else {
            None
        },
        None => Some(indices),
    }
}

/// Why vertices cannot be asked about, if so.
pub open spec fn vertex_refusal(
    f: Seq<Tree>,
    v: StoreView,
    s: SelectionsView,
    node: NodeId,
    selection: Option<u32>,
) -> Option<QueryError> {
    if skinned(f, node) {
        Some(QueryError::SkinnedNode(node))
    } else if selection is Some && !s.rows.contains_key(selection->0 as u128) {
        Some(QueryError::NoSelectionHandle(selection->0))
    } else if geometry_of(f, v, node) is None {
        Some(QueryError::NoMesh(node))
    } else {
        None
    }
}

/// Whether a report tells the values of a window onto vertices.
pub open spec fn reports_vertices(
    d: MeshData,
    ov: Option<VertexOverrides>,
    target: Seq<u32>,
    offset: Option<u32>,
    limit: Option<u32>,
    r: VertexReport,
) -> bool {
    let page = paged(target, offset, limit);
    &&& r.vertex_count == d.positions@.len()
    &&& r.selected == target.len()
    &&& r.offset == offset_or_zero(offset)
    &&& r.vertices@ == Seq::new(page.len(), |i: int| vertex_row(d, ov, page[i]))
}

fn list_vertices(
    d: &MeshData,
    ov: Option<&VertexOverrides>,
    target: &List<u32>,
    offset: Option<u32>,
    limit: Option<u32>,
) -> (r: VertexReport)
    ensures
        reports_vertices(
            *d,
            match ov {
                Some(o) => Some(*o),
                None => None,
            },
            target@,
            offset,
            limit,
            r,
        ),
{
    let page = page_of(target, offset, limit);
    let ghost seen = match ov {
        Some(o) => Some(*o),
        None => None,
    };
    let mut out: Vec<VertexRow> = Vec::new();
    let mut i: usize = 0;
    while i < page.len()
        invariant
            i <= page@.len(),
            seen == match ov {
                Some(o) => Some(*o),
                None => None,
            },
            out@ == Seq::new(i as nat, |j: int| vertex_row(*d, seen, page@[j])),
        decreases page@.len() - i,
    {
        out.push(make_vertex_row(d, ov, page[i]));
        i += 1;
        assert(out@ =~= Seq::new(i as nat, |j: int| vertex_row(*d, seen, page@[j])));
    }
    VertexReport {
        vertex_count: d.positions.len(),
        selected: target.len(),
        offset: offset_of(offset),
        vertices: out,
    }
}

/// What is painted over a node's mesh, where that is asked for.
pub open spec fn asked_overrides(f: Seq<Tree>, v: StoreView, node: NodeId, include_source: bool) -> Option<
    VertexOverrides,
> {
    if include_source {
        match def_of(f, v, node) {
            Some(d) => Some(d.overrides),
            None => None,
        }
    } else {
        None
    }
}

/// The values of vertices of a node. A handle takes the place of the indices; one
/// that holds nothing is refused. Where asked, each value is told apart by whether
/// it was painted.
pub fn vertex_data(
    nodes: &Vec<Node>,
    store: &MeshStore,
    selections: &VertexSelections,
    node: NodeId,
    indices: List<u32>,
    selection: Option<u32>,
    offset: Option<u32>,
    limit: Option<u32>,
    include_source: bool,
) -> (r: Result<VertexReport, QueryError>)
    ensures
        match r {
            Ok(report) => {
                let f = forest(nodes@);
                &&& vertex_refusal(f, store@, selections@, node, selection) is None
                &&& reports_vertices(
                    geometry_of(f, store@, node)->0,
                    asked_overrides(f, store@, node, include_source),
                    asked(selections@, selection, indices@)->0,
                    offset,
                    limit,
                    report,
                )
            },
            Err(e) => vertex_refusal(forest(nodes@), store@, selections@, node, selection) == Some(
                e,
            ),
        },
{
    if node_is_skinned(nodes, node) {
        return Err(QueryError::SkinnedNode(node));
    }
    let target = match selection {
        Some(id) => match selections.lookup_vertex_selection(id) {
            Some(l) => l,
            None => {
                return Err(QueryError::NoSelectionHandle(id));
            },
        },
        None => indices,
    };
    let ov = if include_source {
        match find_mesh_def(nodes, store, node) {
            Some(d) => Some(&d.overrides),
            None => None,
        }
    } else {
        None
    };
    match node_mesh(nodes, store, node) {
        Some(d) => Ok(list_vertices(d, ov, &target, offset, limit)),
        None => Err(QueryError::NoMesh(node)),
    }
}

/// The layers of a mesh: its base, what is stacked on it and what is painted.
pub struct MeshLayers {
    pub mesh: AssetId,
    pub base: &'static str,
    pub modifiers: List<Modifier>,
    /// Whether its vertices can be painted one by one.
    pub frozen_topology: bool,
    pub has_overrides: bool,
    pub positions: usize,
    pub colors: usize,
    pub normals: usize,
    pub uvs: usize,
}

/// What a base is called.
pub open spec fn base_name(b: MeshBase) -> Seq<char> {
    match b {
        MeshBase::Primitive(_) => "primitive"@,
        MeshBase::Lathe(_) => "lathe"@,
        MeshBase::Superquadric(_) => "superquadric"@,
        MeshBase::Sweep(_) => "sweep"@,
        MeshBase::Captured(_) => "captured"@,
        MeshBase::Sdf(_) => "sdf"@,
    }
}

fn name_base(b: &MeshBase) -> (r: &'static str)
    ensures
        r@ == base_name(*b),
{
    match b {
        MeshBase::Primitive(_) => "primitive",
        MeshBase::Lathe(_) => "lathe",
        MeshBase::Superquadric(_) => "superquadric",
        MeshBase::Sweep(_) => "sweep",
        MeshBase::Captured(_) => "captured",
        MeshBase::Sdf(_) => "sdf",
    }
}

/// Whether a report tells the layers of a mesh.
pub open spec fn reports_layers(d: MeshDef, mesh: AssetId, r: MeshLayers) -> bool {
    &&& r.mesh == mesh
    &&& r.base@ == base_name(d.stack.base)
    &&& r.modifiers == d.stack.modifiers
    &&& r.frozen_topology == (d.stack.modifiers@.len() == 0 && d.stack.base is Captured)
    &&& r.has_overrides == !d.overrides.blank()
    &&& r.positions == d.overrides.positions@.dom().len()
    &&& r.colors == d.overrides.colors@.dom().len()
    &&& r.normals == d.overrides.normals@.dom().len()
    &&& r.uvs == d.overrides.uvs@.dom().len()
}

/// The layers of a node's mesh.
pub fn mesh_layers(nodes: &Vec<Node>, store: &MeshStore, node: NodeId) -> (r: Result<
    MeshLayers,
    QueryError,
>)
    ensures
        match r {
            Ok(report) => {
                let f = forest(nodes@);
                &&& !skinned(f, node)
                &&& def_of(f, store@, node) is Some
                &&& reports_layers(def_of(f, store@, node)->0, mesh_of(f, node)->0, report)
            },
            Err(e) => if skinned(forest(nodes@), node) {
                e == QueryError::SkinnedNode(node)
            } else {
                def_of(forest(nodes@), store@, node) is None && e == QueryError::NoMeshAsset(node)
            },
        },
{
    if node_is_skinned(nodes, node) {
        return Err(QueryError::SkinnedNode(node));
    }
    let mesh = match find_mesh(nodes, node) {
        Some(m) => m,
        None => {
            return Err(QueryError::NoMeshAsset(node));
        },
    };
    match store.find_def(mesh) {
        Some(d) => {
            let captured = match d.stack.base {
                MeshBase::Captured(_) => true,
                _ => false,
            };
            Ok(
                MeshLayers {
                    mesh,
                    base: name_base(&d.stack.base),
                    modifiers: d.stack.modifiers.clone(),
                    frozen_topology: d.stack.modifiers.is_empty() && captured,
                    has_overrides: !d.overrides.is_empty(),
                    positions: d.overrides.positions.count(),
                    colors: d.overrides.colors.count(),
                    normals: d.overrides.normals.count(),
                    uvs: d.overrides.uvs.count(),
                },
            )
        },
        None => Err(QueryError::NoMeshAsset(node)),
    }
}

/// A triangle, by its vertices.
#[derive(Clone, Copy, PartialEq, Eq, Structural, Debug)]
pub struct Triangle {
    pub a: u32,
    pub b: u32,
    pub c: u32,
}

/// The triangles of a mesh.
pub struct TriangleReport {
    pub vertex_count: usize,
    pub triangle_count: usize,
    pub offset: u32,
    pub triangles: Vec<Triangle>,
    pub bbox: Option<Aabb>,
}

/// The whole triangles of a row of indices.
pub open spec fn triangles_of(indices: Seq<u32>) -> Seq<Triangle> {
    Seq::new(
        (indices.len() / 3) as nat,
        |k: int| Triangle { a: indices[3 * k], b: indices[3 * k + 1], c: indices[3 * k + 2] },
    )
}

/// Whether a box is the one around points.
pub open spec fn encloses(points: Seq<Vec3>, b: Option<Aabb>) -> bool {
    match b {
        Some(b) => {
            &&& points.len() > 0
            &&& is_least(along(points, Axis::X), b.min.x)
            &&& is_least(along(points, Axis::Y), b.min.y)
            &&& is_least(along(points, Axis::Z), b.min.z)
            &&& is_greatest(along(points, Axis::X), b.max.x)
            &&& is_greatest(along(points, Axis::Y), b.max.y)
            &&& is_greatest(along(points, Axis::Z), b.max.z)
        },
        None => points.len() == 0,
    }
}

/// Whether a report tells a window onto the triangles of a mesh.
pub open spec fn reports_triangles(
    d: MeshData,
    offset: Option<u32>,
    limit: Option<u32>,
    r: TriangleReport,
) -> bool {
    &&& r.vertex_count == d.positions@.len()
    &&& r.triangle_count == d.indices@.len() / 3
    &&& r.offset == offset_or_zero(offset)
    &&& r.triangles@ == paged(triangles_of(d.indices@), offset, limit)
    &&& encloses(d.positions@, r.bbox)
}

fn list_triangles(d: &MeshData, offset: Option<u32>, limit: Option<u32>) -> (r: TriangleReport)
    ensures
        reports_triangles(*d, offset, limit, r),
{
    let n: usize = d.indices.len();
    let count: usize = n / 3;
    let (from, to) = page_window(count, offset, limit);
    let ghost all = triangles_of(d.indices@);
    let mut out: Vec<Triangle> = Vec::new();
    let mut k: usize = from;
    while k < to
        invariant
            from <= k <= to <= count,
            n == d.indices@.len(),
            count == n / 3,
            all == triangles_of(d.indices@),
            out@ == all.subrange(from as int, k as int),
        decreases to - k,
    {
        assert(3 * k + 2 < n);
        out.push(
            Triangle {
                a: *d.indices.at(3 * k),
                b: *d.indices.at(3 * k + 1),
                c: *d.indices.at(3 * k + 2),
            },
        );
        k += 1;
        assert(out@ =~= all.subrange(from as int, k as int));
    }
    TriangleReport {
        vertex_count: d.positions.len(),
        triangle_count: count,
        offset: offset_of(offset),
        triangles: out,
        bbox: aabb_from_positions(&d.positions),
    }
}

/// The triangles of a node's geometry, and the box around it.
pub fn mesh_data(
    nodes: &Vec<Node>,
    store: &MeshStore,
    node: NodeId,
    offset: Option<u32>,
    limit: Option<u32>,
) -> (r: Result<TriangleReport, QueryError>)
    ensures
        match r {
            Ok(report) => mesh_refusal(forest(nodes@), store@, node) is None && reports_triangles(
                geometry_of(forest(nodes@), store@, node)->0,
                offset,
                limit,
                report,
            ),
            Err(e) => mesh_refusal(forest(nodes@), store@, node) == Some(e),
        },
{
    if node_is_skinned(nodes, node) {
        return Err(QueryError::SkinnedNode(node));
    }
    match node_mesh(nodes, store, node) {
        Some(d) => Ok(list_triangles(d, offset, limit)),
        None => Err(QueryError::NoMesh(node)),
    }
}

/// The indices of a row that a mesh has.
pub open spec fn within_mesh(row: Seq<u32>, count: nat) -> Seq<u32>
    decreases row.len(),
{
    if row.len() == 0 {
        seq![]
    } else {
        let front = within_mesh(row.drop_last(), count);
        if row.last() < count {
            front.push(row.last())
        } else {
            front
        }
    }
}

/// The first whole numbers, as far as an index can count.
pub open spec fn counting(n: nat) -> Seq<u32> {
    Seq::new(
        if n <= u32::MAX {
            n
        } else {
            u32::MAX as nat
        },
        |i: int| i as u32,
    )
}

/// The band that is asked about: a selection, else the indices given, else the
/// whole mesh.
pub open spec fn band(s: SelectionsView, selection: Option<u32>, indices: Seq<u32>, count: nat) -> Seq<u32> {
    match selection {
        Some(id) => s.rows[id as u128],
        None => if indices.len() > 0 {
            indices
        } else {
            counting(count)
        },
    }
}

/// Why a band cannot be asked about, if so.
pub open spec fn band_refusal(
    f: Seq<Tree>,
    v: StoreView,
    s: SelectionsView,
    node: NodeId,
    selection: Option<u32>,
) -> Option<QueryError> {
    if skinned(f, node) {
        Some(QueryError::SkinnedNode(node))
    } else if geometry_of(f, v, node) is None {
        Some(QueryError::NoMesh(node))
    } else if selection is Some && !s.rows.contains_key(selection->0 as u128) {
        Some(QueryError::NoSelectionHandle(selection->0))
    } else {
        None
    }
}

fn keep_within(row: &List<u32>, count: usize) -> (r: Vec<u32>)
    ensures
        r@ == within_mesh(row@, count as nat),
{
    let mut out: Vec<u32> = Vec::new();
    let mut i: usize = 0;
    while i < row.len()
        invariant
            i <= row@.len(),
            out@ == within_mesh(row@.take(i as int), count as nat),
        decreases row@.len() - i,
    {
        let v: u32 = *row.at(i);
        if (v as usize) < count {
            out.push(v);
        }
        i += 1;
        assert(row@.take(i as int).drop_last() =~= row@.take(i - 1));
    }
    assert(row@.take(i as int) =~= row@);
    out
}

pub(crate) fn count_up(n: usize) -> (r: Vec<u32>)
    ensures
        r@ == counting(n as nat),
{
    let mut out: Vec<u32> = Vec::new();
    let last: u32 = if n <= u32::MAX as usize {
        n as u32
    } else {
        u32::MAX
    };
    let mut i: u32 = 0;
    while i < last
        invariant
            i <= last,
            out@ == counting(i as nat),
        decreases last - i,
    {
        out.push(i);
        i += 1;
        assert(out@ =~= counting(i as nat));
    }
    out
}

/// The vertices of a band of a node's mesh: those of it that the mesh has, in
/// order.
pub fn strip_band(
    nodes: &Vec<Node>,
    store: &MeshStore,
    selections: &VertexSelections,
    node: NodeId,
    selection: Option<u32>,
    indices: List<u32>,
) -> (r: Result<Vec<u32>, QueryError>)
    ensures
        match r {
            Ok(row) => {
                let f = forest(nodes@);
                let count = geometry_of(f, store@, node)->0.positions@.len();
                &&& band_refusal(f, store@, selections@, node, selection) is None
                &&& row@ == within_mesh(band(selections@, selection, indices@, count), count)
            },
            Err(e) => band_refusal(forest(nodes@), store@, selections@, node, selection) == Some(e),
        },
{
    if node_is_skinned(nodes, node) {
        return Err(QueryError::SkinnedNode(node));
    }
    let d = match node_mesh(nodes, store, node) {
        Some(d) => d,
        None => {
            return Err(QueryError::NoMesh(node));
        },
    };
    let count: usize = d.positions.len();
    let target = match selection {
        Some(id) => match selections.lookup_vertex_selection(id) {
            Some(l) => l,
            None => {
                return Err(QueryError::NoSelectionHandle(id));
            },
        },
        None => if indices.is_empty() {
            List::from_vec(count_up(count))
        } else {
            indices
        },
    };
    Ok(keep_within(&target, count))
}

/// Edges with another at the end, unless it is there.
pub open spec fn with_edge(es: Seq<HullEdge>, e: HullEdge) -> Seq<HullEdge> {
    if es.contains(e) {
        es
    } else {
        es.push(e)
    }
}

/// The edges of the first `k` triangles, each once, in the order they come.
pub open spec fn layout_edges(ts: Seq<Triangle>, k: nat) -> Seq<HullEdge>
    decreases k,
{
    if k == 0 {
        seq![]
    } else {
        let t = ts[k - 1];
        with_edge(
            with_edge(
                with_edge(layout_edges(ts, (k - 1) as nat), edge(t.a, t.b)),
                edge(t.b, t.c),
            ),
            edge(t.c, t.a),
        )
    }
}

/// A line of a layout.
#[derive(Clone, Copy, PartialEq, Eq, Structural, Debug)]
pub struct UvLine {
    pub a: Vec2,
    pub b: Vec2,
}

/// The lines of edges whose ends have coordinates.
pub open spec fn layout_lines(es: Seq<HullEdge>, uvs: Seq<Vec2>) -> Seq<UvLine>
    decreases es.len(),
{
    if es.len() == 0 {
        seq![]
    } else {
        let e = es.last();
        let front = layout_lines(es.drop_last(), uvs);
        if e.a < uvs.len() && e.b < uvs.len() {
            front.push(UvLine { a: uvs[e.a as int], b: uvs[e.b as int] })
        } else {
            front
        }
    }
}

/// The layout of a set of texture coordinates.
pub struct UvReport {
    pub uv_set: u32,
    pub edge_count: usize,
    pub offset: u32,
    pub lines: Vec<UvLine>,
}

/// A set of texture coordinates, where the mesh has it.
pub open spec fn uv_set_of(d: MeshData, set: u32) -> Option<Seq<Vec2>> {
    if set == 0 {
        if d.uvs@.len() > 0 {
            Some(d.uvs@)
        } else {
            None
        }
    } else if set == 1 {
        match d.uvs1 {
            Some(l) => Some(l@),
            None => None,
        }
    } else {
        None
    }
}

/// Whether a report tells a window onto the layout of texture coordinates. Without
/// a limit it is kept short.
pub open spec fn reports_layout(
    d: MeshData,
    set: u32,
    offset: Option<u32>,
    limit: Option<u32>,
    r: Option<UvReport>,
) -> bool {
    match uv_set_of(d, set) {
        None => r is None,
        Some(uvs) => {
            let ts = triangles_of(d.indices@);
            let es = layout_edges(ts, ts.len());
            let size = match limit {
                Some(l) => l,
                None => DEFAULT_UV_EDGE_PAGE,
            };
            &&& r is Some
            &&& r->0.uv_set == set
            &&& r->0.edge_count == es.len()
            &&& r->0.offset == offset_or_zero(offset)
            &&& r->0.lines@ == layout_lines(paged(es, offset, Some(size)), uvs)
        },
    }
}

fn add_layout_edge(es: &mut Vec<HullEdge>, a: u32, b: u32)
    ensures
        final(es)@ == with_edge(old(es)@, edge(a, b)),
{
    let e = if a <= b {
        HullEdge { a, b }
    } else {
        HullEdge { a: b, b: a }
    };
    let mut i: usize = 0;
    while i < es.len()
        invariant
            i <= es@.len(),
            es@ == old(es)@,
            e == edge(a, b),
            forall|j: int| 0 <= j < i ==> es@[j] != e,
        decreases es@.len() - i,
    {
        if es[i] == e {
            assert(es@[i as int] == e);
            return ;
        }
        i += 1;
    }
    es.push(e);
}

fn collect_edges(indices: &List<u32>) -> (es: Vec<HullEdge>)
    ensures
        es@ == layout_edges(triangles_of(indices@), triangles_of(indices@).len()),
{
    let n: usize = indices.len();
    let count: usize = n / 3;
    let ghost ts = triangles_of(indices@);
    let mut es: Vec<HullEdge> = Vec::new();
    let mut k: usize = 0;
    while k < count
        invariant
            k <= count,
            n == indices@.len(),
            count == n / 3,
            ts == triangles_of(indices@),
            es@ == layout_edges(ts, k as nat),
        decreases count - k,
    {
        assert(3 * k + 2 < n);
        let a: u32 = *indices.at(3 * k);
        let b: u32 = *indices.at(3 * k + 1);
        let c: u32 = *indices.at(3 * k + 2);
        assert(ts[k as int] == (Triangle { a, b, c }));
        add_layout_edge(&mut es, a, b);
        add_layout_edge(&mut es, b, c);
        add_layout_edge(&mut es, c, a);
        k += 1;
    }
    es
}

fn draw_lines(es: &Vec<HullEdge>, from: usize, to: usize, uvs: &List<Vec2>) -> (r: Vec<UvLine>)
    requires
        from <= to <= es@.len(),
    ensures
        r@ == layout_lines(es@.subrange(from as int, to as int), uvs@),
{
    let mut out: Vec<UvLine> = Vec::new();
    let mut i: usize = from;
    assert(es@.subrange(from as int, from as int) =~= seq![]);
    while i < to
        invariant
            from <= i <= to <= es@.len(),
            out@ == layout_lines(es@.subrange(from as int, i as int), uvs@),
        decreases to - i,
    {
        let e = es[i];
        if (e.a as usize) < uvs.len() && (e.b as usize) < uvs.len() {
            out.push(UvLine { a: *uvs.at(e.a as usize), b: *uvs.at(e.b as usize) });
        }
        i += 1;
        assert(es@.subrange(from as int, i as int).drop_last() =~= es@.subrange(
            from as int,
            i - 1,
        ));
    }
    out
}

fn lay_out(d: &MeshData, set: u32, offset: Option<u32>, limit: Option<u32>) -> (r: Option<UvReport>)
    ensures
        reports_layout(*d, set, offset, limit, r),
{
    let uvs: &List<Vec2> = if set == 0 {
        if d.uvs.is_empty() {
            return None;
        }
        &d.uvs
    } else if set == 1 {
        match &d.uvs1 {
            Some(l) => l,
            None => {
                return None;
            },
        }
    } else {
        return None;
    };
    let es = collect_edges(&d.indices);
    let size: u32 = match limit {
        Some(l) => l,
        None => DEFAULT_UV_EDGE_PAGE,
    };
    let (from, to) = page_window(es.len(), offset, Some(size));
    let lines = draw_lines(&es, from, to, uvs);
    Some(UvReport { uv_set: set, edge_count: es.len(), offset: offset_of(offset), lines })
}

/// The layout of a set of texture coordinates of a node; nothing where its mesh
/// lacks the set.
pub fn uv_layout(
    nodes: &Vec<Node>,
    store: &MeshStore,
    node: NodeId,
    uv_set: Option<u32>,
    offset: Option<u32>,
    limit: Option<u32>,
) -> (r: Result<Option<UvReport>, QueryError>)
    ensures
        match r {
            Ok(report) => mesh_refusal(forest(nodes@), store@, node) is None && reports_layout(
                geometry_of(forest(nodes@), store@, node)->0,
                offset_or_zero(uv_set),
                offset,
                limit,
                report,
            ),
            Err(e) => mesh_refusal(forest(nodes@), store@, node) == Some(e),
        },
{
    if node_is_skinned(nodes, node) {
        return Err(QueryError::SkinnedNode(node));
    }
    match node_mesh(nodes, store, node) {
        Some(d) => Ok(lay_out(d, offset_of(uv_set), offset, limit)),
        None => Err(QueryError::NoMesh(node)),
    }
}

/// No edge of a layout comes twice, though two triangles share it.
pub proof fn law_layout_edge_comes_once(ts: Seq<Triangle>, k: nat)
    ensures
        layout_edges(ts, k).no_duplicates(),
    decreases k,
{
    if k > 0 {
        law_layout_edge_comes_once(ts, (k - 1) as nat);
    }
}

} // verus!
