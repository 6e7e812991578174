//! The wireframe of a collider: which lines and arcs are drawn for each shape,
//! and the edges of a convex hull.
use crate::assets::{word_bytes, words_to_bytes};
use crate::list::List;
use crate::node::ColliderShape;
use crate::table::Table;
use crate::values::Vec3;
use std::collections::hash_map::DefaultHasher;
use std::hash::Hasher;
use vstd::prelude::*;
use vstd::std_specs::hash::DefaultHasherAdditionalSpecFns;

verus! {

/// How many segments a full circle of a sphere has.
pub const SPHERE_SEGMENTS: u32 = 48;

/// How many segments a half circle of a capsule has.
pub const HALF_SEGMENTS: u32 = 24;

/// How many segments the rim of a capsule, cylinder or cone has.
pub const CAP_SEGMENTS: u32 = 32;

/// How many clouds of points the edges are kept of.
pub const MAX_CLOUDS: usize = 64;

/// A plane through the axis of two coordinates.
#[derive(Clone, Copy, PartialEq, Eq, Structural, Debug)]
pub enum Plane {
    XY,
    XZ,
    YZ,
}

/// Where along the height of a shape something is drawn.
#[derive(Clone, Copy, PartialEq, Eq, Structural, Debug)]
pub enum Level {
    Middle,
    Top,
    Bottom,
}

/// A direction away from the axis.
#[derive(Clone, Copy, PartialEq, Eq, Structural, Debug)]
pub enum Heading {
    PlusX,
    MinusX,
    PlusZ,
    MinusZ,
}

/// Something that is drawn.
#[allow(inconsistent_fields)]
#[derive(Clone, Copy, PartialEq, Eq, Structural, Debug)]
pub enum Stroke {
    /// An edge of a box, between two of its corners: the four at the back
    /// counter-clockwise, then the four at the front.
    BoxEdge { a: u8, b: u8 },
    /// A circle around the axis of the shape.
    Circle { level: Level, plane: Plane, segments: u32 },
    /// A half circle that bulges away from the middle.
    HalfCircle { level: Level, plane: Plane, segments: u32 },
    /// A line along the side, from the rim at the top to that at the bottom.
    Side(Heading),
    /// A line from the tip to the rim at the bottom.
    Slope(Heading),
    /// An edge between two vertices of a hull.
    HullEdge { a: u32, b: u32 },
    /// A short line through a point of a cloud that has no hull.
    Cross { point: u32 },
}

/// Which color a wireframe has.
#[derive(Clone, Copy, PartialEq, Eq, Structural, Debug)]
pub enum WireColor {
    Box,
    Sphere,
    Capsule,
    Cylinder,
    Cone,
    Ellipsoid,
    Hull,
}

/// A triangle of a hull, by its vertices.
#[derive(Clone, Copy, PartialEq, Eq, Structural, Debug)]
pub struct Face {
    pub a: u32,
    pub b: u32,
    pub c: u32,
}

/// An edge of a hull: the smaller vertex first.
#[derive(Clone, Copy, PartialEq, Eq, Structural, Debug)]
pub struct HullEdge {
    pub a: u32,
    pub b: u32,
}

/// The hull of a cloud of points, where it has one.
pub enum Hull {
    Faces(Vec<Face>),
    /// The points lie in a plane, or are fewer than four.
    Degenerate { points: u32 },
}

/// The edge between two vertices.
pub open spec fn edge(a: u32, b: u32) -> HullEdge {
    if a <= b {
        HullEdge { a, b }
    } else {
        HullEdge { a: b, b: a }
    }
}

/// Whether an edge is one of a triangle's.
pub open spec fn edge_of(f: Face, e: HullEdge) -> bool {
    e == edge(f.a, f.b) || e == edge(f.b, f.c) || e == edge(f.c, f.a)
}

/// Whether an edge is one of some triangle's.
pub open spec fn bounds(faces: Seq<Face>, e: HullEdge) -> bool {
    exists|i: int| 0 <= i < faces.len() && edge_of(#[trigger] faces[i], e)
}

/// Whether an edge comes before another.
pub open spec fn precedes(x: HullEdge, y: HullEdge) -> bool {
    x.a < y.a || (x.a == y.a && x.b < y.b)
}

/// Whether the edges are in order, each once.
pub open spec fn ascending(es: Seq<HullEdge>) -> bool {
    forall|i: int, j: int| 0 <= i < j < es.len() ==> precedes(#[trigger] es[i], #[trigger] es[j])
}

fn make_edge(a: u32, b: u32) -> (e: HullEdge)
    ensures
        e == edge(a, b),
{
    if a <= b {
        HullEdge { a, b }
    } else {
        HullEdge { a: b, b: a }
    }
}

/// Puts an edge in its place, unless it is there.
fn add_edge(es: &mut Vec<HullEdge>, e: HullEdge)
    requires
        ascending(old(es)@),
    ensures
        ascending(final(es)@),
        forall|x: HullEdge|
            #[trigger] final(es)@.contains(x) == (old(es)@.contains(x) || x == e),
{
    let ghost was = es@;
    let mut i: usize = 0;
    while i < es.len() && (es[i].a < e.a || (es[i].a == e.a && es[i].b < e.b))
        invariant
            es@ == was,
            i <= es@.len(),
            ascending(was),
            forall|j: int| 0 <= j < i ==> precedes(#[trigger] was[j], e),
        decreases es@.len() - i,
    {
        i += 1;
    }
    if i < es.len() && es[i].a == e.a && es[i].b == e.b {
        assert(was[i as int] == e);
        assert(was.contains(e));
        return ;
    }
    es.insert(i, e);
    proof {
        let now = es@;
        assert(now == was.insert(i as int, e));
        assert forall|j: int, k: int| 0 <= j < k < now.len() implies precedes(
            #[trigger] now[j],
            #[trigger] now[k],
        ) by {
            let a = if j < i { j } else { j - 1 };
            let b = if k < i { k } else { k - 1 };
            if j != i && k != i {
                assert(precedes(was[a], was[b]));
            } else if k == i {
                assert(precedes(was[j], e));
            } else {
                assert(precedes(e, was[i as int]));
                if b > i {
                    assert(precedes(was[i as int], was[b]));
                }
            }
        }
        assert forall|x: HullEdge| #[trigger] now.contains(x) == (was.contains(x) || x == e) by {
            if was.contains(x) {
                let j = choose|j: int| 0 <= j < was.len() && was[j] == x;
                assert(now[if j < i { j } else { j + 1 }] == x);
            }
            assert(now[i as int] == e);
            if now.contains(x) && x != e {
                let j = choose|j: int| 0 <= j < now.len() && now[j] == x;
                assert(was[if j < i { j } else { j - 1 }] == x);
            }
        }
    }
}

/// The edges of a hull: each edge of its triangles once, in order.
pub fn hull_edges(faces: &Vec<Face>) -> (es: Vec<HullEdge>)
    ensures
        ascending(es@),
        forall|e: HullEdge| #[trigger] es@.contains(e) == bounds(faces@, e),
{
    let mut es: Vec<HullEdge> = Vec::new();
    let mut i: usize = 0;
    assert forall|e: HullEdge| #[trigger] es@.contains(e) == bounds(faces@.take(0), e) by {}
    while i < faces.len()
        invariant
            i <= faces@.len(),
            ascending(es@),
            forall|e: HullEdge| #[trigger] es@.contains(e) == bounds(faces@.take(i as int), e),
        decreases faces@.len() - i,
    {
        let f = faces[i];
        let ghost was = es@;
        add_edge(&mut es, make_edge(f.a, f.b));
        let ghost one = es@;
        add_edge(&mut es, make_edge(f.b, f.c));
        let ghost two = es@;
        add_edge(&mut es, make_edge(f.c, f.a));
        i += 1;
        proof {
            let some = faces@.take(i - 1);
            let more = faces@.take(i as int);
            assert forall|e: HullEdge| #[trigger] es@.contains(e) == bounds(more, e) by {
                assert(two.contains(e) == (one.contains(e) || e == edge(f.b, f.c)));
                assert(one.contains(e) == (was.contains(e) || e == edge(f.a, f.b)));
                assert(was.contains(e) == bounds(some, e));
                assert(more[i - 1] == f);
                if bounds(some, e) {
                    let j = choose|j: int| 0 <= j < some.len() && edge_of(#[trigger] some[j], e);
                    assert(more[j] == some[j]);
                }
                if bounds(more, e) {
                    let j = choose|j: int| 0 <= j < more.len() && edge_of(#[trigger] more[j], e);
                    if j < i - 1 {
                        assert(some[j] == more[j]);
                    }
                }
            }
        }
    }
    assert(faces@.take(i as int) =~= faces@);
    es
}

/// No edge of a hull is drawn twice, whichever way its triangles run.
pub proof fn law_edge_is_drawn_once(es: Seq<HullEdge>)
    requires
        ascending(es),
    ensures
        es.no_duplicates(),
{
    assert forall|i: int, j: int| 0 <= i < es.len() && 0 <= j < es.len() && i != j implies es[i]
        != es[j] by {
        if i < j {
            assert(precedes(es[i], es[j]));
        } else {
            assert(precedes(es[j], es[i]));
        }
    }
}

/// The edges of a box.
pub open spec fn box_strokes() -> Seq<Stroke> {
    seq![
        Stroke::BoxEdge { a: 0, b: 1 },
        Stroke::BoxEdge { a: 1, b: 2 },
        Stroke::BoxEdge { a: 2, b: 3 },
        Stroke::BoxEdge { a: 3, b: 0 },
        Stroke::BoxEdge { a: 4, b: 5 },
        Stroke::BoxEdge { a: 5, b: 6 },
        Stroke::BoxEdge { a: 6, b: 7 },
        Stroke::BoxEdge { a: 7, b: 4 },
        Stroke::BoxEdge { a: 0, b: 4 },
        Stroke::BoxEdge { a: 1, b: 5 },
        Stroke::BoxEdge { a: 2, b: 6 },
        Stroke::BoxEdge { a: 3, b: 7 },
    ]
}

/// A full circle of a sphere.
pub open spec fn great_circle(plane: Plane) -> Stroke {
    Stroke::Circle { level: Level::Middle, plane, segments: SPHERE_SEGMENTS }
}

/// A rim.
pub open spec fn rim(level: Level) -> Stroke {
    Stroke::Circle { level, plane: Plane::XZ, segments: CAP_SEGMENTS }
}

/// A half circle of a capsule.
pub open spec fn half_circle(level: Level, plane: Plane) -> Stroke {
    Stroke::HalfCircle { level, plane, segments: HALF_SEGMENTS }
}

/// The four lines along the side of a capsule or cylinder.
pub open spec fn side_strokes() -> Seq<Stroke> {
    seq![
        Stroke::Side(Heading::PlusX),
        Stroke::Side(Heading::MinusX),
        Stroke::Side(Heading::PlusZ),
        Stroke::Side(Heading::MinusZ),
    ]
}

/// Edges as strokes.
pub open spec fn edge_strokes(es: Seq<HullEdge>) -> Seq<Stroke> {
    Seq::new(es.len(), |i: int| Stroke::HullEdge { a: es[i].a, b: es[i].b })
}

/// Whether strokes are those of a hull: its edges, or a short line through each
/// point where there is no hull.
pub open spec fn hull_drawn(h: Hull, strokes: Seq<Stroke>) -> bool {
    match h {
        Hull::Faces(faces) => exists|es: Seq<HullEdge>|
            ascending(es) && (forall|e: HullEdge|
                #[trigger] es.contains(e) == bounds(faces@, e)) && strokes == #[trigger] edge_strokes(
                es,
            ),
        Hull::Degenerate { points } => strokes == Seq::new(
            points as nat,
            |i: int| Stroke::Cross { point: i as u32 },
        ),
    }
}

/// Whether strokes are those of a shape. `round` are the edges of the mesh that
/// stands for an ellipsoid, `hull` is the solved hull of a cloud of points.
pub open spec fn drawn(
    shape: ColliderShape,
    round: Seq<HullEdge>,
    hull: Hull,
    color: WireColor,
    strokes: Seq<Stroke>,
) -> bool {
    match shape {
        ColliderShape::Box { .. } => color == WireColor::Box && strokes == box_strokes(),
        ColliderShape::Sphere { .. } => color == WireColor::Sphere && strokes == seq![
            great_circle(Plane::XY),
            great_circle(Plane::XZ),
            great_circle(Plane::YZ),
        ],
        ColliderShape::Capsule { .. } => color == WireColor::Capsule && strokes == seq![
            half_circle(Level::Top, Plane::XY),
            half_circle(Level::Top, Plane::YZ),
            half_circle(Level::Bottom, Plane::XY),
            half_circle(Level::Bottom, Plane::YZ),
            rim(Level::Top),
            rim(Level::Bottom),
        ] + side_strokes(),
        ColliderShape::Cylinder { .. } => color == WireColor::Cylinder && strokes == seq![
            rim(Level::Top),
            rim(Level::Bottom),
        ] + side_strokes(),
        ColliderShape::Cone { .. } => color == WireColor::Cone && strokes == seq![
            rim(Level::Bottom),
            Stroke::Slope(Heading::PlusX),
            Stroke::Slope(Heading::MinusX),
            Stroke::Slope(Heading::PlusZ),
            Stroke::Slope(Heading::MinusZ),
        ],
        ColliderShape::Ellipsoid { .. } => color == WireColor::Ellipsoid && strokes == edge_strokes(
            round,
        ),
        ColliderShape::ConvexHull { .. } => color == WireColor::Hull && hull_drawn(hull, strokes),
    }
}

fn edges_to_strokes(es: &Vec<HullEdge>) -> (r: Vec<Stroke>)
    ensures
        r@ == edge_strokes(es@),
{
    let mut out: Vec<Stroke> = Vec::new();
    let mut i: usize = 0;
    while i < es.len()
        invariant
            i <= es@.len(),
            out@ == edge_strokes(es@.take(i as int)),
        decreases es@.len() - i,
    {
        out.push(Stroke::HullEdge { a: es[i].a, b: es[i].b });
        i += 1;
        assert(out@ =~= edge_strokes(es@.take(i as int)));
    }
    assert(es@.take(i as int) =~= es@);
    out
}

fn draw_hull(hull: &Hull) -> (r: Vec<Stroke>)
    ensures
        hull_drawn(*hull, r@),
{
    match hull {
        Hull::Faces(faces) => {
            let es = hull_edges(faces);
            let r = edges_to_strokes(&es);
            assert(r@ == edge_strokes(es@));
            r
        },
        Hull::Degenerate { points } => {
            let n: u32 = *points;
            let mut out: Vec<Stroke> = Vec::new();
            let mut i: u32 = 0;
            while i < n
                invariant
                    i <= n,
                    out@ == Seq::new(i as nat, |j: int| Stroke::Cross { point: j as u32 }),
                decreases n - i,
            {
                out.push(Stroke::Cross { point: i });
                i += 1;
                assert(out@ =~= Seq::new(i as nat, |j: int| Stroke::Cross { point: j as u32 }));
            }
            out
        },
    }
}

fn draw_sides(out: &mut Vec<Stroke>)
    ensures
        final(out)@ == old(out)@ + side_strokes(),
{
    let ghost was = out@;
    out.push(Stroke::Side(Heading::PlusX));
    out.push(Stroke::Side(Heading::MinusX));
    out.push(Stroke::Side(Heading::PlusZ));
    out.push(Stroke::Side(Heading::MinusZ));
    assert(out@ =~= was + side_strokes());
}

fn draw_box() -> (r: Vec<Stroke>)
    ensures
        r@ == box_strokes(),
{
    let mut r: Vec<Stroke> = Vec::new();
    r.push(Stroke::BoxEdge { a: 0, b: 1 });
    r.push(Stroke::BoxEdge { a: 1, b: 2 });
    r.push(Stroke::BoxEdge { a: 2, b: 3 });
    r.push(Stroke::BoxEdge { a: 3, b: 0 });
    r.push(Stroke::BoxEdge { a: 4, b: 5 });
    r.push(Stroke::BoxEdge { a: 5, b: 6 });
    r.push(Stroke::BoxEdge { a: 6, b: 7 });
    r.push(Stroke::BoxEdge { a: 7, b: 4 });
    r.push(Stroke::BoxEdge { a: 0, b: 4 });
    r.push(Stroke::BoxEdge { a: 1, b: 5 });
    r.push(Stroke::BoxEdge { a: 2, b: 6 });
    r.push(Stroke::BoxEdge { a: 3, b: 7 });
    assert(r@ =~= box_strokes());
    r
}

fn draw_circle(level: Level, plane: Plane, segments: u32) -> (s: Stroke)
    ensures
        s == (Stroke::Circle { level, plane, segments }),
{
    Stroke::Circle { level, plane, segments }
}

fn draw_half(level: Level, plane: Plane) -> (s: Stroke)
    ensures
        s == half_circle(level, plane),
{
    Stroke::HalfCircle { level, plane, segments: HALF_SEGMENTS }
}

/// What is drawn for a shape, and in which color.
pub fn build(shape: &ColliderShape, round: &Vec<HullEdge>, hull: &Hull) -> (r: (
    WireColor,
    Vec<Stroke>,
))
    ensures
        drawn(*shape, round@, *hull, r.0, r.1@),
{
    let mut out: Vec<Stroke> = Vec::new();
    match shape {
        ColliderShape::Box { .. } => (WireColor::Box, draw_box()),
        ColliderShape::Sphere { .. } => {
            out.push(draw_circle(Level::Middle, Plane::XY, SPHERE_SEGMENTS));
            out.push(draw_circle(Level::Middle, Plane::XZ, SPHERE_SEGMENTS));
            out.push(draw_circle(Level::Middle, Plane::YZ, SPHERE_SEGMENTS));
            assert(out@ =~= seq![
                great_circle(Plane::XY),
                great_circle(Plane::XZ),
                great_circle(Plane::YZ),
            ]);
            (WireColor::Sphere, out)
        },
        ColliderShape::Capsule { .. } => {
            out.push(draw_half(Level::Top, Plane::XY));
            out.push(draw_half(Level::Top, Plane::YZ));
            out.push(draw_half(Level::Bottom, Plane::XY));
            out.push(draw_half(Level::Bottom, Plane::YZ));
            out.push(draw_circle(Level::Top, Plane::XZ, CAP_SEGMENTS));
            out.push(draw_circle(Level::Bottom, Plane::XZ, CAP_SEGMENTS));
            assert(out@ =~= seq![
                half_circle(Level::Top, Plane::XY),
                half_circle(Level::Top, Plane::YZ),
                half_circle(Level::Bottom, Plane::XY),
                half_circle(Level::Bottom, Plane::YZ),
                rim(Level::Top),
                rim(Level::Bottom),
            ]);
            draw_sides(&mut out);
            (WireColor::Capsule, out)
        },
        ColliderShape::Cylinder { .. } => {
            out.push(draw_circle(Level::Top, Plane::XZ, CAP_SEGMENTS));
            out.push(draw_circle(Level::Bottom, Plane::XZ, CAP_SEGMENTS));
            assert(out@ =~= seq![rim(Level::Top), rim(Level::Bottom)]);
            draw_sides(&mut out);
            (WireColor::Cylinder, out)
        },
        ColliderShape::Cone { .. } => {
            out.push(draw_circle(Level::Bottom, Plane::XZ, CAP_SEGMENTS));
            out.push(Stroke::Slope(Heading::PlusX));
            out.push(Stroke::Slope(Heading::MinusX));
            out.push(Stroke::Slope(Heading::PlusZ));
            out.push(Stroke::Slope(Heading::MinusZ));
            assert(out@ =~= seq![
                rim(Level::Bottom),
                Stroke::Slope(Heading::PlusX),
                Stroke::Slope(Heading::MinusX),
                Stroke::Slope(Heading::PlusZ),
                Stroke::Slope(Heading::MinusZ),
            ]);
            (WireColor::Cone, out)
        },
        ColliderShape::Ellipsoid { .. } => (WireColor::Ellipsoid, edges_to_strokes(round)),
        ColliderShape::ConvexHull { .. } => (WireColor::Hull, draw_hull(hull)),
    }
}

/// The bit patterns of the coordinates of points, one point after another.
pub open spec fn cloud_words(points: Seq<Vec3>) -> Seq<u32>
    decreases points.len(),
{
    if points.len() == 0 {
        seq![]
    } else {
        let p = points.last();
        cloud_words(points.drop_last()) + seq![p.x.bits, p.y.bits, p.z.bits]
    }
}

/// The hash of a cloud of points: that of the bytes of its coordinates.
pub fn cloud_hash(points: &List<Vec3>) -> (r: u64)
    ensures
        r == DefaultHasher::spec_finish(seq![word_bytes(cloud_words(points@))]),
{
    let mut words: Vec<u32> = Vec::new();
    let mut i: usize = 0;
    while i < points.len()
        invariant
            i <= points@.len(),
            words@ == cloud_words(points@.take(i as int)),
        decreases points@.len() - i,
    {
        let ghost was = words@;
        let p = *points.at(i);
        words.push(p.x.bits);
        words.push(p.y.bits);
        words.push(p.z.bits);
        i += 1;
        assert(points@.take(i as int).drop_last() =~= points@.take(i - 1));
        assert(words@ =~= was + seq![p.x.bits, p.y.bits, p.z.bits]);
    }
    assert(points@.take(i as int) =~= points@);
    let bytes = words_to_bytes(&List::from_vec(words));
    let mut h = DefaultHasher::new();
    h.write(bytes.as_slice());
    assert(h@ =~= seq![word_bytes(cloud_words(points@))]);
    h.finish()
}

/// The edges of the clouds that were solved, by the hashes of the clouds.
pub struct EdgeCache {
    clouds: Table<List<HullEdge>>,
}

impl View for EdgeCache {
    type V = Map<u128, List<HullEdge>>;

    closed spec fn view(&self) -> Map<u128, List<HullEdge>> {
        self.clouds@
    }
}

/// The cache when it is next asked: emptied where it has grown too large.
pub open spec fn trimmed(m: Map<u128, List<HullEdge>>) -> Map<u128, List<HullEdge>> {
    if m.dom().len() > MAX_CLOUDS {
        Map::empty()
    } else {
        m
    }
}

impl EdgeCache {
    /// An empty cache.
    pub fn new() -> (c: EdgeCache)
        ensures
            c@ == Map::<u128, List<HullEdge>>::empty(),
    {
        EdgeCache { clouds: Table::new() }
    }

    /// The edges of a cloud, where they are known. A cache that has grown too
    /// large is emptied first.
    pub fn lookup(&mut self, hash: u64) -> (r: Option<List<HullEdge>>)
        ensures
            final(self)@ == trimmed(old(self)@),
            match r {
                Some(es) => trimmed(old(self)@).contains_key(hash as u128) && es == trimmed(
                    old(self)@,
                )[hash as u128],
                None => !trimmed(old(self)@).contains_key(hash as u128),
            },
    {
        if self.clouds.len() > MAX_CLOUDS {
            self.clouds.clear();
        }
        match self.clouds.get(hash as u128) {
            Some(es) => Some(es.clone()),
            None => None,
        }
    }

    /// Keeps the edges of a cloud.
    pub fn keep(&mut self, hash: u64, edges: List<HullEdge>)
        ensures
            final(self)@ == old(self)@.insert(hash as u128, edges),
    {
        self.clouds.insert(hash as u128, edges);
    }
}

/// A cache that is asked before each cloud it keeps never holds more than one
/// cloud beyond its limit.
pub proof fn law_cache_stays_small(m: Map<u128, List<HullEdge>>, hash: u64, edges: List<HullEdge>)
    requires
        m.dom().finite(),
    ensures
        trimmed(m).insert(hash as u128, edges).dom().finite(),
        trimmed(m).insert(hash as u128, edges).dom().len() <= MAX_CLOUDS + 1,
{
    let t = trimmed(m);
    assert(t.insert(hash as u128, edges).dom() =~= t.dom().insert(hash as u128));
}

} // verus!
