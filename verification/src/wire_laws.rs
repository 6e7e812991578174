//! What holds of what is drawn of colliders and of what is read of morph targets.
use crate::animation_sync::RenderNode;
use crate::asset_template::{found, AssetTemplate};
use crate::collider_wire::{
    bounds, box_strokes, cloud_words, drawn, edge_strokes, Face, Heading, Hull, HullEdge, Level,
    Plane, Stroke, WireColor,
};
use crate::find::lemma_first;
use crate::ids::NodeId;
use crate::live_query::{current_tracks, morph_keys, morph_lines, weighted};
use crate::node::{ColliderShape, NodeKind};
use crate::readback::{meshes_of, morph_names, LiveState};
use crate::timeline::TimelineView;
use crate::tree::{find, Tree};
use crate::values::Vec3;
use vstd::prelude::*;

verus! {

/// The edges of a box: every corner has three, and no edge is drawn twice.
pub proof fn law_box_has_twelve_edges()
    ensures
        box_strokes().len() == 12,
        forall|i: int, j: int|
            0 <= i < 12 && 0 <= j < 12 && i != j ==> #[trigger] box_strokes()[i]
                != #[trigger] box_strokes()[j],
        forall|i: int|
            0 <= i < 12 ==> (#[trigger] box_strokes()[i] matches Stroke::BoxEdge { a, b } && a < 8
                && b < 8 && a != b),
        forall|k: u8|
            k < 4 ==> #[trigger] box_strokes().contains(
                Stroke::BoxEdge { a: k, b: (k + 4) as u8 },
            ),
{
    let s = box_strokes();
    assert(s[8] == (Stroke::BoxEdge { a: 0, b: 4 }));
    assert(s[9] == (Stroke::BoxEdge { a: 1, b: 5 }));
    assert(s[10] == (Stroke::BoxEdge { a: 2, b: 6 }));
    assert(s[11] == (Stroke::BoxEdge { a: 3, b: 7 }));
}

/// A collider is drawn in the color of its shape. A ball is three circles around its
/// middle, one in each plane; a cylinder has a rim at the top and at the bottom and four
/// sides; a cone has a rim at the bottom and four slopes; a capsule has both rims, four
/// sides and two half circles at each end.
pub proof fn law_collider_is_drawn_as_its_shape(
    shape: ColliderShape,
    round: Seq<HullEdge>,
    hull: Hull,
    color: WireColor,
    strokes: Seq<Stroke>,
)
    requires
        drawn(shape, round, hull, color, strokes),
    ensures
        match shape {
            ColliderShape::Box { .. } => color == WireColor::Box && strokes.len() == 12,
            ColliderShape::Sphere { .. } => {
                &&& color == WireColor::Sphere
                &&& strokes.len() == 3
                &&& forall|p: Plane|
                    #[trigger] strokes.contains(
                        Stroke::Circle { level: Level::Middle, plane: p, segments: 48 },
                    )
            },
            ColliderShape::Capsule { .. } => {
                &&& color == WireColor::Capsule
                &&& strokes.len() == 10
                &&& has_rim(strokes, Level::Top) && has_rim(strokes, Level::Bottom)
                &&& has_sides(strokes)
                &&& has_cap(strokes, Level::Top) && has_cap(strokes, Level::Bottom)
            },
            ColliderShape::Cylinder { .. } => {
                &&& color == WireColor::Cylinder
                &&& strokes.len() == 6
                &&& has_rim(strokes, Level::Top) && has_rim(strokes, Level::Bottom)
                &&& has_sides(strokes)
            },
            ColliderShape::Cone { .. } => {
                &&& color == WireColor::Cone
                &&& strokes.len() == 5
                &&& has_rim(strokes, Level::Bottom)
                &&& forall|h: Heading| #[trigger] strokes.contains(Stroke::Slope(h))
            },
            ColliderShape::Ellipsoid { .. } => color == WireColor::Ellipsoid && strokes.len()
                == round.len(),
            ColliderShape::ConvexHull { .. } => color == WireColor::Hull,
        },
{
    match shape {
        ColliderShape::Sphere { .. } => {
            assert forall|p: Plane|
                #[trigger] strokes.contains(
                    Stroke::Circle { level: Level::Middle, plane: p, segments: 48 },
                ) by {
                match p {
                    Plane::XY => {
                        assert(strokes[0] == (Stroke::Circle {
                            level: Level::Middle,
                            plane: p,
                            segments: 48,
                        }));
                    },
                    Plane::XZ => {
                        assert(strokes[1] == (Stroke::Circle {
                            level: Level::Middle,
                            plane: p,
                            segments: 48,
                        }));
                    },
                    Plane::YZ => {
                        assert(strokes[2] == (Stroke::Circle {
                            level: Level::Middle,
                            plane: p,
                            segments: 48,
                        }));
                    },
                }
            }
        },
        ColliderShape::Capsule { .. } => {
            assert(strokes[0] == (Stroke::HalfCircle {
                level: Level::Top,
                plane: Plane::XY,
                segments: 24,
            }));
            assert(strokes[1] == (Stroke::HalfCircle {
                level: Level::Top,
                plane: Plane::YZ,
                segments: 24,
            }));
            assert(strokes[2] == (Stroke::HalfCircle {
                level: Level::Bottom,
                plane: Plane::XY,
                segments: 24,
            }));
            assert(strokes[3] == (Stroke::HalfCircle {
                level: Level::Bottom,
                plane: Plane::YZ,
                segments: 24,
            }));
            assert(strokes[4] == (Stroke::Circle {
                level: Level::Top,
                plane: Plane::XZ,
                segments: 32,
            }));
            assert(strokes[5] == (Stroke::Circle {
                level: Level::Bottom,
                plane: Plane::XZ,
                segments: 32,
            }));
            lemma_sides(strokes, 6);
        },
        ColliderShape::Cylinder { .. } => {
            assert(strokes[0] == (Stroke::Circle {
                level: Level::Top,
                plane: Plane::XZ,
                segments: 32,
            }));
            assert(strokes[1] == (Stroke::Circle {
                level: Level::Bottom,
                plane: Plane::XZ,
                segments: 32,
            }));
            lemma_sides(strokes, 2);
        },
        ColliderShape::Cone { .. } => {
            assert(strokes[0] == (Stroke::Circle {
                level: Level::Bottom,
                plane: Plane::XZ,
                segments: 32,
            }));
            assert forall|h: Heading| #[trigger] strokes.contains(Stroke::Slope(h)) by {
                match h {
                    Heading::PlusX => {
                        assert(strokes[1] == Stroke::Slope(h));
                    },
                    Heading::MinusX => {
                        assert(strokes[2] == Stroke::Slope(h));
                    },
                    Heading::PlusZ => {
                        assert(strokes[3] == Stroke::Slope(h));
                    },
                    Heading::MinusZ => {
                        assert(strokes[4] == Stroke::Slope(h));
                    },
                }
            }
        },
        _ => {},
    }
}

/// Whether a circle is drawn at a level around the axis.
pub open spec fn has_rim(strokes: Seq<Stroke>, level: Level) -> bool {
    strokes.contains(Stroke::Circle { level, plane: Plane::XZ, segments: 32 })
}

/// Whether the sides are drawn.
pub open spec fn has_sides(strokes: Seq<Stroke>) -> bool {
    forall|h: Heading| #[trigger] strokes.contains(Stroke::Side(h))
}

/// Whether the half circles at an end are drawn.
pub open spec fn has_cap(strokes: Seq<Stroke>, level: Level) -> bool {
    &&& strokes.contains(Stroke::HalfCircle { level, plane: Plane::XY, segments: 24 })
    &&& strokes.contains(Stroke::HalfCircle { level, plane: Plane::YZ, segments: 24 })
}

proof fn lemma_sides(strokes: Seq<Stroke>, k: int)
    requires
        0 <= k,
        k + 4 <= strokes.len(),
        strokes[k] == Stroke::Side(Heading::PlusX),
        strokes[k + 1] == Stroke::Side(Heading::MinusX),
        strokes[k + 2] == Stroke::Side(Heading::PlusZ),
        strokes[k + 3] == Stroke::Side(Heading::MinusZ),
    ensures
        has_sides(strokes),
{
    assert forall|h: Heading| #[trigger] strokes.contains(Stroke::Side(h)) by {
        match h {
            Heading::PlusX => {
                assert(strokes[k] == Stroke::Side(h));
            },
            Heading::MinusX => {
                assert(strokes[k + 1] == Stroke::Side(h));
            },
            Heading::PlusZ => {
                assert(strokes[k + 2] == Stroke::Side(h));
            },
            Heading::MinusZ => {
                assert(strokes[k + 3] == Stroke::Side(h));
            },
        }
    }
}

/// A hull is drawn by the edges of its faces and no others; points without a hull are
/// drawn one by one.
pub proof fn law_hull_is_drawn_by_its_edges(
    shape: ColliderShape,
    round: Seq<HullEdge>,
    hull: Hull,
    color: WireColor,
    strokes: Seq<Stroke>,
    a: u32,
    b: u32,
)
    requires
        shape is ConvexHull,
        drawn(shape, round, hull, color, strokes),
        a <= b,
    ensures
        hull matches Hull::Faces(faces) ==> strokes.contains(Stroke::HullEdge { a, b }) == exists|
            i: int,
        |
            0 <= i < faces@.len() && joins(#[trigger] faces@[i], a, b),
        hull matches Hull::Degenerate { points } ==> strokes.len() == points && forall|i: int|
            0 <= i < points ==> #[trigger] strokes[i] == (Stroke::Cross { point: i as u32 }),
{
    if let Hull::Faces(faces) = hull {
        let es = choose|es: Seq<HullEdge>|
            crate::collider_wire::ascending(es) && (forall|e: HullEdge|
                #[trigger] es.contains(e) == bounds(faces@, e)) && strokes
                == #[trigger] edge_strokes(es);
        let e = HullEdge { a, b };
        assert(es.contains(e) == bounds(faces@, e));
        if es.contains(e) {
            let k = choose|k: int| 0 <= k < es.len() && es[k] == e;
            assert(strokes[k] == (Stroke::HullEdge { a, b }));
            let i = choose|i: int|
                0 <= i < faces@.len() && crate::collider_wire::edge_of(#[trigger] faces@[i], e);
            assert(joins(faces@[i], a, b));
        }
        if strokes.contains(Stroke::HullEdge { a, b }) {
            let k = choose|k: int|
                0 <= k < strokes.len() && strokes[k] == (Stroke::HullEdge { a, b });
            assert(es[k] == e);
        }
        if exists|i: int| 0 <= i < faces@.len() && joins(#[trigger] faces@[i], a, b) {
            let i = choose|i: int| 0 <= i < faces@.len() && joins(#[trigger] faces@[i], a, b);
            assert(crate::collider_wire::edge_of(faces@[i], e));
        }
    }
}

/// Whether two corners of a face are these.
pub open spec fn joins(f: Face, a: u32, b: u32) -> bool {
    ||| (f.a == a && f.b == b) || (f.a == b && f.b == a)
    ||| (f.b == a && f.c == b) || (f.b == b && f.c == a)
    ||| (f.c == a && f.a == b) || (f.c == b && f.a == a)
}

/// The words of a cloud are the coordinates of its points, in order.
pub proof fn law_cloud_is_written_point_by_point(points: Seq<Vec3>, i: int)
    requires
        0 <= i < points.len(),
    ensures
        cloud_words(points).len() == 3 * points.len(),
        cloud_words(points)[3 * i] == points[i].x.bits,
        cloud_words(points)[3 * i + 1] == points[i].y.bits,
        cloud_words(points)[3 * i + 2] == points[i].z.bits,
    decreases points.len(),
{
    let less = points.drop_last();
    lemma_cloud_len(less);
    if i < less.len() {
        law_cloud_is_written_point_by_point(less, i);
        assert(less[i] == points[i]);
    }
}

proof fn lemma_cloud_len(points: Seq<Vec3>)
    ensures
        cloud_words(points).len() == 3 * points.len(),
    decreases points.len(),
{
    if points.len() > 0 {
        lemma_cloud_len(points.drop_last());
    }
}

/// The weights that are told of a node are those of the first of its meshes that has
/// any, with the names that its file gives them.
pub proof fn law_morphs_are_told_of_their_node(
    live: LiveState,
    f: Seq<Tree>,
    row: Seq<NodeId>,
    node: NodeId,
)
    ensures
        ({
            let meshes = meshes_of(live.render.nodes@, live.templates@, f, node);
            let a = morph_lines(live, f, row);
            let r = morph_lines(live, f, row.push(node));
            let any = exists|i: int| 0 <= i < meshes.len() && has_weights(live, #[trigger] meshes[i]);
            &&& !any ==> r == a
            &&& any ==> {
                &&& r.len() == a.len() + 1
                &&& r.take(a.len() as int) == a
                &&& r.last().0 == node
                &&& r.last().2 == morph_names(live.render.nodes@, live.templates@, f, node)
                &&& exists|i: int|
                    0 <= i < meshes.len() && has_weights(live, #[trigger] meshes[i]) && (forall|
                        j: int,
                    |
                        0 <= j < i ==> !has_weights(live, #[trigger] meshes[j])) && r.last().1
                        == live.weights@[live.render.geometry_morphs@[meshes[i] as u128] as u128]@
            }
        }),
{
    let meshes = meshes_of(live.render.nodes@, live.templates@, f, node);
    let a = morph_lines(live, f, row);
    let r = morph_lines(live, f, row.push(node));
    assert(row.push(node).drop_last() =~= row);
    let p = weighted(live);
    lemma_first(meshes, p);
    let k = crate::find::first(meshes, p);
    if k < meshes.len() {
        assert(p(meshes[k]));
        assert(has_weights(live, meshes[k]));
        assert forall|j: int| 0 <= j < k implies !has_weights(live, #[trigger] meshes[j]) by {
            assert(!p(meshes[j]));
        }
        assert(r.take(a.len() as int) =~= a);
    } else {
        assert forall|j: int| 0 <= j < meshes.len() implies !has_weights(
            live,
            #[trigger] meshes[j],
        ) by {
            assert(!p(meshes[j]));
        }
    }
}

/// Whether a mesh has morph weights.
pub open spec fn has_weights(live: LiveState, mesh: u64) -> bool {
    live.render.geometry_morphs@.contains_key(mesh as u128) && live.weights@.contains_key(
        live.render.geometry_morphs@[mesh as u128] as u128,
    )
}

/// The morph keys of meshes are those of the meshes that have one, in order.
pub proof fn law_morph_keys_are_those_of_the_meshes(
    meshes: Seq<u64>,
    keys: Map<u128, u64>,
    mesh: u64,
)
    ensures
        keys.contains_key(mesh as u128) ==> morph_keys(meshes.push(mesh), keys) == morph_keys(
            meshes,
            keys,
        ).push(keys[mesh as u128]),
        !keys.contains_key(mesh as u128) ==> morph_keys(meshes.push(mesh), keys) == morph_keys(
            meshes,
            keys,
        ),
        morph_keys(Seq::empty(), keys).len() == 0,
{
    assert(meshes.push(mesh).drop_last() =~= meshes);
}

/// The tracks that are authored are those of the current clip.
pub proof fn law_authored_tracks_are_those_of_the_current_clip(v: TimelineView)
    ensures
        v.current_clip is None ==> current_tracks(v) == 0,
        v.current_clip matches Some(id) ==> (v.has_clip(id) ==> current_tracks(v) == v.clip(
            id,
        ).tracks.len()),
{
}

/// The meshes of a node are those that it was made with; of a skinned mesh that has none
/// of its own, the ones of its file, or the one of its part.
pub proof fn law_meshes_are_those_of_the_node(
    nodes: Map<u128, RenderNode>,
    templates: Map<u128, AssetTemplate>,
    f: Seq<Tree>,
    node: NodeId,
)
    ensures
        !nodes.contains_key(node.0) ==> meshes_of(nodes, templates, f, node).len() == 0,
        nodes.contains_key(node.0) && nodes[node.0].model_meshes@.len() > 0 ==> meshes_of(
            nodes,
            templates,
            f,
            node,
        ) == nodes[node.0].model_meshes@,
        nodes.contains_key(node.0) && nodes[node.0].model_meshes@.len() == 0 ==> (find(
            f,
            node,
        ) matches Some(t) ==> (t.data.kind matches NodeKind::SkinnedMesh { skin, .. } ==> (
        templates.contains_key(skin.source.0) ==> (found(
            templates[skin.source.0].roots@,
            skin.node_index,
        ) matches Some(n) ==> {
            let r = meshes_of(nodes, templates, f, node);
            match skin.primitive_index {
                None => r.len() == n.primitives@.len() && forall|i: int|
                    0 <= i < r.len() ==> #[trigger] r[i] == n.primitives@[i].mesh_key,
                Some(i) => if i < n.primitives@.len() {
                    r == seq![n.primitives@[i as int].mesh_key]
                } else {
                    r.len() == 0
                },
            }
        })))),
{
}

} // verus!
