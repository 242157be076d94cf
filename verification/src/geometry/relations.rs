//! What distances, halves, limits and rectangles have to do with each other.
use vstd::prelude::*;

use crate::geometry::{
    clamped, distance, halved, spec_max, spec_min, IRect, IVec2, Origin, Size,
};

verus! {

/// The distance of two numbers is what one has to go to reach the other.
pub proof fn distances_measure_the_way(a: int, b: int, c: int)
    ensures
        distance(a, b) >= 0,
        distance(a, b) == distance(b, a),
        distance(a, b) == 0 <==> a == b,
        a + distance(a, b) == b || b + distance(a, b) == a,
        distance(a, c) <= distance(a, b) + distance(b, c),
{
}

/// Twice a half is the number, or misses it by one, towards zero.
pub proof fn halves_round_towards_zero(v: int)
    ensures
        v >= 0 ==> 0 <= v - 2 * halved(v) <= 1,
        v <= 0 ==> -1 <= v - 2 * halved(v) <= 0,
        halved(-v) == -halved(v),
{
}

/// The smaller and the larger of two numbers are these two.
pub proof fn smaller_and_larger(a: int, b: int)
    ensures
        spec_min(a, b) <= a,
        spec_min(a, b) <= b,
        spec_min(a, b) == a || spec_min(a, b) == b,
        spec_min(a, b) + spec_max(a, b) == a + b,
{
}

/// A number that is limited lies between the limits, stays where it is if it lay there,
/// and is otherwise at the nearer limit.
pub proof fn limits_keep_what_fits(v: int, low: int, high: int, other: int)
    requires
        low <= high,
        low <= other <= high,
    ensures
        low <= clamped(v, low, high) <= high,
        low <= v <= high ==> clamped(v, low, high) == v,
        distance(v, clamped(v, low, high)) <= distance(v, other),
{
}

/// A rectangle holds its corners and its middle, which is as far from one side as from
/// the other, within a pixel.
pub proof fn middles_lie_inside(area: IRect)
    requires
        area.ordered(),
        area.centerable(),
    ensures
        area.holds(area.min),
        area.holds(area.max),
        area.holds(area.spec_center()),
        distance(2 * area.spec_center().x, area.min.x + area.max.x) <= 1,
        distance(2 * area.spec_center().y, area.min.y + area.max.y) <= 1,
{
}

/// The frame of a window begins at its origin and has its size.
pub proof fn frames_have_their_size(origin: Origin, size: Size)
    requires
        origin.sum_fits(size),
        0 <= size.x,
        0 <= size.y,
    ensures
        ({
            let frame = IRect::framed(origin, size);
            &&& frame.min == origin
            &&& frame.max.x - frame.min.x == size.x
            &&& frame.max.y - frame.min.y == size.y
            &&& frame.spec_size() == size
            &&& frame.spec_width() == size.x
            &&& frame.spec_height() == size.y
        }),
{
}

/// Two points are near each other if neither coordinate differs by more than the reach.
pub proof fn near_points_lie_within_reach(a: IVec2, b: IVec2, reach: int)
    ensures
        a.near(b, reach) == b.near(a, reach),
        0 <= reach ==> a.near(a, reach),
        a.near(b, reach) <==> -reach <= a.x - b.x <= reach && -reach <= a.y - b.y <= reach,
{
}

/// Adding and taking away undo each other.
pub proof fn sums_and_differences_undo_each_other(a: IVec2, b: IVec2)
    requires
        a.sum_fits(b),
    ensures
        a.spec_plus(b).spec_minus(b) == a,
        a.spec_plus(b).x == a.x + b.x,
        a.spec_plus(b).y == a.y + b.y,
{
}

} // verus!
