//! The box around points, and where the box of a node comes from.
use crate::ids::AssetId;
use crate::list::List;
use crate::node::NodeKind;
use crate::values::{Vec3, F32, F32_INFINITY_BITS};
use vstd::prelude::*;

verus! {

/// The bit pattern of negative infinity.
pub const F32_MINUS_INFINITY_BITS: u32 = 0xFF80_0000;

/// The bit pattern of one half.
pub const HALF_BITS: u32 = 0x3F00_0000;

/// The bit pattern of minus one half.
pub const MINUS_HALF_BITS: u32 = 0xBF00_0000;

/// A box along the axes.
#[derive(Clone, Copy, PartialEq, Eq, Structural, Debug)]
pub struct Aabb {
    pub min: Vec3,
    pub max: Vec3,
}

/// An axis.
#[derive(Clone, Copy, PartialEq, Eq, Structural, Debug)]
pub enum Axis {
    X,
    Y,
    Z,
}

/// A coordinate of a point.
pub open spec fn coordinate(p: Vec3, axis: Axis) -> F32 {
    match axis {
        Axis::X => p.x,
        Axis::Y => p.y,
        Axis::Z => p.z,
    }
}

/// The coordinates of points along an axis.
pub open spec fn along(points: Seq<Vec3>, axis: Axis) -> Seq<F32> {
    Seq::new(points.len(), |i: int| coordinate(points[i], axis))
}

/// Whether no number of a row is a number.
pub open spec fn no_number(row: Seq<F32>) -> bool {
    forall|i: int| 0 <= i < row.len() ==> (#[trigger] row[i]).nan()
}

/// Whether a number is the least of a row. What is not a number does not count;
/// where nothing counts, it is infinite.
pub open spec fn is_least(row: Seq<F32>, r: F32) -> bool {
    if no_number(row) {
        r == (F32 { bits: F32_INFINITY_BITS })
    } else {
        &&& !r.nan()
        &&& exists|i: int| 0 <= i < row.len() && (#[trigger] row[i]).value_rank() == r.value_rank()
            && !row[i].nan()
        &&& forall|i: int|
            0 <= i < row.len() && !(#[trigger] row[i]).nan() ==> r.value_rank()
                <= row[i].value_rank()
    }
}

/// Whether a number is the greatest of a row.
pub open spec fn is_greatest(row: Seq<F32>, r: F32) -> bool {
    if no_number(row) {
        r == (F32 { bits: F32_MINUS_INFINITY_BITS })
    } else {
        &&& !r.nan()
        &&& exists|i: int| 0 <= i < row.len() && (#[trigger] row[i]).value_rank() == r.value_rank()
            && !row[i].nan()
        &&& forall|i: int|
            0 <= i < row.len() && !(#[trigger] row[i]).nan() ==> r.value_rank()
                >= row[i].value_rank()
    }
}

fn read_axis(p: Vec3, axis: Axis) -> (r: F32)
    ensures
        r == coordinate(p, axis),
{
    match axis {
        Axis::X => p.x,
        Axis::Y => p.y,
        Axis::Z => p.z,
    }
}

fn extreme(points: &List<Vec3>, axis: Axis, least: bool) -> (r: F32)
    ensures
        least ==> is_least(along(points@, axis), r),
        !least ==> is_greatest(along(points@, axis), r),
{
    let ghost row = along(points@, axis);
    let mut r: F32 = F32 {
        bits: if least {
            F32_INFINITY_BITS
        } else {
            F32_MINUS_INFINITY_BITS
        },
    };
    let ghost start = r;
    let ghost mut at: int = -1;
    let mut found = false;
    let mut i: usize = 0;
    while i < points.len()
        invariant
            i <= points@.len(),
            row == along(points@, axis),
            found == !no_number(row.take(i as int)),
            !found ==> r == start,
            found ==> 0 <= at < i && row[at] == r && !r.nan(),
            found ==> forall|j: int|
                0 <= j < i && !(#[trigger] row[j]).nan() ==> if least {
                    r.value_rank() <= row[j].value_rank()
                } else {
                    r.value_rank() >= row[j].value_rank()
                },
        decreases points@.len() - i,
    {
        let v = read_axis(*points.at(i), axis);
        assert(row[i as int] == v);
        let ghost before = row.take(i as int);
        let ghost now = row.take(i + 1);
        if !v.is_nan() {
            let better = if least {
                v.lt(r)
            } else {
                r.lt(v)
            };
            proof {
                if !found {
                    assert forall|j: int| 0 <= j < i implies (#[trigger] row[j]).nan() by {
                        assert(before[j].nan());
                    }
                }
            }
            if !found || better {
                r = v;
                proof {
                    at = i as int;
                }
            }
            found = true;
            assert(!now[i as int].nan());
        } else {
            proof {
                if found {
                    let j = choose|j: int| 0 <= j < before.len() && !(#[trigger] before[j]).nan();
                    assert(!now[j].nan());
                } else {
                    assert forall|j: int| 0 <= j < now.len() implies (#[trigger] now[j]).nan() by {
                        if j < i {
                            assert(before[j].nan());
                        }
                    }
                }
            }
        }
        i += 1;
    }
    assert(row.take(i as int) =~= row);
    r
}

/// The box around points; nothing where there are none. A coordinate that is not
/// a number does not count.
pub fn aabb_from_positions(points: &List<Vec3>) -> (r: Option<Aabb>)
    ensures
        match r {
            Some(b) => {
                &&& points@.len() > 0
                &&& is_least(along(points@, Axis::X), b.min.x)
                &&& is_least(along(points@, Axis::Y), b.min.y)
                &&& is_least(along(points@, Axis::Z), b.min.z)
                &&& is_greatest(along(points@, Axis::X), b.max.x)
                &&& is_greatest(along(points@, Axis::Y), b.max.y)
                &&& is_greatest(along(points@, Axis::Z), b.max.z)
            },
            None => points@.len() == 0,
        },
{
    if points.is_empty() {
        return None;
    }
    Some(
        Aabb {
            min: Vec3 {
                x: extreme(points, Axis::X, true),
                y: extreme(points, Axis::Y, true),
                z: extreme(points, Axis::Z, true),
            },
            max: Vec3 {
                x: extreme(points, Axis::X, false),
                y: extreme(points, Axis::Y, false),
                z: extreme(points, Axis::Z, false),
            },
        },
    )
}

/// Every point lies in the box around the points.
pub proof fn law_points_lie_in_their_box(points: Seq<Vec3>, axis: Axis, lo: F32, hi: F32, i: int)
    requires
        is_least(along(points, axis), lo),
        is_greatest(along(points, axis), hi),
        0 <= i < points.len(),
        !coordinate(points[i], axis).nan(),
    ensures
        lo.value_rank() <= coordinate(points[i], axis).value_rank() <= hi.value_rank(),
{
    let row = along(points, axis);
    assert(!row[i].nan());
}

/// Where the box of a node comes from.
#[derive(Clone, Copy, PartialEq, Eq, Structural, Debug)]
pub enum BoundsSource {
    /// The geometry of a mesh.
    Geometry(AssetId),
    /// The rest geometry of a skinned mesh.
    BindPose { source: AssetId, node_index: u32, primitive: Option<u32> },
    /// The shape of a collider.
    Shape,
    /// The copies of a mesh.
    Copies(AssetId),
    /// A box of one unit around the node.
    Unit,
}

/// Where the box of a kind comes from.
pub open spec fn source_of(k: NodeKind) -> BoundsSource {
    match k {
        NodeKind::Mesh { mesh, .. } => BoundsSource::Geometry(mesh),
        NodeKind::SkinnedMesh { skin, .. } => BoundsSource::BindPose {
            source: skin.source,
            node_index: skin.node_index,
            primitive: skin.primitive_index,
        },
        NodeKind::Collider(_) => BoundsSource::Shape,
        NodeKind::Instancer(d) => BoundsSource::Copies(d.mesh),
        _ => BoundsSource::Unit,
    }
}

/// Where the box of a node comes from. Where geometry is missing, a box of one
/// unit stands for it.
pub fn bounds_source(kind: &NodeKind) -> (r: BoundsSource)
    ensures
        r == source_of(*kind),
{
    match kind {
        NodeKind::Mesh { mesh, .. } => BoundsSource::Geometry(*mesh),
        NodeKind::SkinnedMesh { skin, .. } => BoundsSource::BindPose {
            source: skin.source,
            node_index: skin.node_index,
            primitive: skin.primitive_index,
        },
        NodeKind::Collider(_) => BoundsSource::Shape,
        NodeKind::Instancer(d) => BoundsSource::Copies(d.mesh),
        _ => BoundsSource::Unit,
    }
}

/// A box of one unit around the origin.
#[verifier::allow_in_spec]
pub fn unit_box() -> Aabb
    returns
        (Aabb {
            min: Vec3 {
                x: F32 { bits: MINUS_HALF_BITS },
                y: F32 { bits: MINUS_HALF_BITS },
                z: F32 { bits: MINUS_HALF_BITS },
            },
            max: Vec3 {
                x: F32 { bits: HALF_BITS },
                y: F32 { bits: HALF_BITS },
                z: F32 { bits: HALF_BITS },
            },
        }),
{
    Aabb {
        min: Vec3 {
            x: F32 { bits: MINUS_HALF_BITS },
            y: F32 { bits: MINUS_HALF_BITS },
            z: F32 { bits: MINUS_HALF_BITS },
        },
        max: Vec3 {
            x: F32 { bits: HALF_BITS },
            y: F32 { bits: HALF_BITS },
            z: F32 { bits: HALF_BITS },
        },
    }
}

/// The box of geometry, or of one unit where there is none.
pub fn box_of(points: Option<&List<Vec3>>) -> (r: Aabb)
    ensures
        points is None || points->0@.len() == 0 ==> r == unit_box(),
        points is Some && points->0@.len() > 0 ==> {
            let p = points->0@;
            &&& is_least(along(p, Axis::X), r.min.x)
            &&& is_least(along(p, Axis::Y), r.min.y)
            &&& is_least(along(p, Axis::Z), r.min.z)
            &&& is_greatest(along(p, Axis::X), r.max.x)
            &&& is_greatest(along(p, Axis::Y), r.max.y)
            &&& is_greatest(along(p, Axis::Z), r.max.z)
        },
{
    match points {
        Some(p) => match aabb_from_positions(p) {
            Some(b) => b,
            None => unit_box(),
        },
        None => unit_box(),
    }
}

} // verus!
