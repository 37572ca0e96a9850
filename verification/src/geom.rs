//! Integer plane vectors, clamping, and the axis-aligned bounding-box
//! overlap test at the heart of the collision detector.
use vstd::prelude::*;

use crate::COORD_LIMIT;

verus! {

/// A two-dimensional fixed-point vector (coordinates in microunits, speeds
/// in milliunits per second, accelerations in units per second squared).
#[derive(Clone, Copy, PartialEq, Eq, Structural, Debug)]
pub struct Vec2 {
    pub x: i64,
    pub y: i64,
}

/// Mathematical view of `Vec2`.
#[verifier::ext_equal]
pub struct Vec2M {
    pub x: int,
    pub y: int,
}

impl View for Vec2 {
    type V = Vec2M;

    open spec fn view(&self) -> Vec2M {
        Vec2M { x: self.x as int, y: self.y as int }
    }
}

impl Vec2 {
    pub fn new(x: i64, y: i64) -> (v: Vec2)
        ensures
            v@ == (Vec2M { x: x as int, y: y as int }),
    {
        Vec2 { x, y }
    }
}

/// Both coordinates within the global magnitude bound.
pub open spec fn in_coord_range(v: Vec2M) -> bool {
    &&& -COORD_LIMIT <= v.x <= COORD_LIMIT
    &&& -COORD_LIMIT <= v.y <= COORD_LIMIT
}

/// Both coordinates within twice the global magnitude bound (a segment's
/// world position is the sum of two bounded positions).
pub open spec fn in_coord_range_double(v: Vec2M) -> bool {
    &&& -2 * COORD_LIMIT <= v.x <= 2 * COORD_LIMIT
    &&& -2 * COORD_LIMIT <= v.y <= 2 * COORD_LIMIT
}

/// Both coordinates within `[-b, b]`.
pub open spec fn within_bound(v: Vec2M, b: int) -> bool {
    &&& -b <= v.x <= b
    &&& -b <= v.y <= b
}

/// Check that both coordinates lie within `[-b, b]`.
pub fn vec_within(v: Vec2, b: i64) -> (r: bool)
    requires
        0 <= b,
    ensures
        r == within_bound(v@, b as int),
{
    -b <= v.x && v.x <= b && -b <= v.y && v.y <= b
}

/// Absolute value over the mathematical integers.
pub open spec fn abs_m(v: int) -> int {
    if v < 0 {
        -v
    } else {
        v
    }
}

/// `v` pulled into `[lo, hi]`.
pub open spec fn clamp_m(v: int, lo: int, hi: int) -> int {
    if v < lo {
        lo
    } else if v > hi {
        hi
    } else {
        v
    }
}

/// Clamp an `i64` into `[lo, hi]`.
pub fn clamp_i64(v: i64, lo: i64, hi: i64) -> (r: i64)
    requires
        lo <= hi,
    ensures
        r == clamp_m(v as int, lo as int, hi as int),
{
    if v < lo {
        lo
    } else if v > hi {
        hi
    } else {
        v
    }
}

/// Two axis-aligned boxes, each given by its centre and its full size,
/// overlap exactly when on both axes the distance between the centres is
/// strictly less than the mean of the two sizes.
pub open spec fn boxes_overlap(pa: Vec2M, sa: Vec2M, pb: Vec2M, sb: Vec2M) -> bool {
    &&& 2 * abs_m(pa.x - pb.x) < sa.x + sb.x
    &&& 2 * abs_m(pa.y - pb.y) < sa.y + sb.y
}

/// Axis-aligned bounding-box overlap test between a box centred at `pa` of
/// full size `sa` and a box centred at `pb` of full size `sb`.
pub fn aabb_hit(pa: Vec2, sa: Vec2, pb: Vec2, sb: Vec2) -> (r: bool)
    requires
        in_coord_range_double(pa@),
        in_coord_range_double(sa@),
        in_coord_range_double(pb@),
        in_coord_range_double(sb@),
    ensures
        r == boxes_overlap(pa@, sa@, pb@, sb@),
{
    let dx = pa.x - pb.x;
    let adx = if dx < 0 { -dx } else { dx };
    let dy = pa.y - pb.y;
    let ady = if dy < 0 { -dy } else { dy };
    2 * adx < sa.x + sb.x && 2 * ady < sa.y + sb.y
}

} // verus!
