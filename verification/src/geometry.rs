//! Integer points and rectangles in the global coordinate space: x grows to
//! the right, y grows downwards, and a rectangle includes its four edges.
use vstd::prelude::*;

pub mod relations;

verus! {

/// An opaque handle of something the window manager tracks: a window, a strip
/// or a display.
pub type Entity = u64;

/// The window server's number of a window.
pub type WinID = i32;

/// The window server's number of a space.
pub type WorkspaceId = u64;

/// The window server's number of a display.
pub type DisplayId = u32;

/// Whether a coordinate can be held by a point.
pub open spec fn fits(v: int) -> bool {
    i32::MIN <= v <= i32::MAX
}

pub open spec fn spec_min(a: int, b: int) -> int {
    if a <= b {
        a
    } else {
        b
    }
}

pub open spec fn spec_max(a: int, b: int) -> int {
    if a >= b {
        a
    } else {
        b
    }
}

/// `v` moved to the nearest value inside `[low, high]`.
pub open spec fn clamped(v: int, low: int, high: int) -> int {
    if v < low {
        low
    } else if v > high {
        high
    } else {
        v
    }
}

/// Half of `v`, rounded towards zero.
pub open spec fn halved(v: int) -> int {
    if v >= 0 {
        v / 2
    } else {
        -((-v) / 2)
    }
}

pub open spec fn distance(a: int, b: int) -> int {
    if a >= b {
        a - b
    } else {
        b - a
    }
}

/// A point or an extent.
#[derive(Clone, Copy, Debug, PartialEq, Eq, Structural)]
pub struct IVec2 {
    pub x: i32,
    pub y: i32,
}

/// The top left corner of something on the screen.
pub type Origin = IVec2;

/// A width and a height.
pub type Size = IVec2;

impl Default for IVec2 {
    fn default() -> (v: IVec2)
        ensures
            v == (IVec2 { x: 0, y: 0 }),
    {
        IVec2 { x: 0, y: 0 }
    }
}

impl IVec2 {
    pub fn new(x: i32, y: i32) -> (v: IVec2)
        ensures
            v == (IVec2 { x, y }),
    {
        IVec2 { x, y }
    }

    pub fn zero() -> (v: IVec2)
        ensures
            v == (IVec2 { x: 0, y: 0 }),
    {
        IVec2 { x: 0, y: 0 }
    }

    /// Whether the sum of both points is a point.
    pub open spec fn sum_fits(self, other: IVec2) -> bool {
        fits(self.x + other.x) && fits(self.y + other.y)
    }

    /// Whether the difference of both points is a point.
    pub open spec fn diff_fits(self, other: IVec2) -> bool {
        fits(self.x - other.x) && fits(self.y - other.y)
    }

    pub open spec fn spec_plus(self, other: IVec2) -> IVec2 {
        IVec2 { x: (self.x + other.x) as i32, y: (self.y + other.y) as i32 }
    }

    pub open spec fn spec_minus(self, other: IVec2) -> IVec2 {
        IVec2 { x: (self.x - other.x) as i32, y: (self.y - other.y) as i32 }
    }

    pub fn plus(self, other: IVec2) -> (v: IVec2)
        requires
            self.sum_fits(other),
        ensures
            v == self.spec_plus(other),
    {
        IVec2 { x: self.x + other.x, y: self.y + other.y }
    }

    pub fn minus(self, other: IVec2) -> (v: IVec2)
        requires
            self.diff_fits(other),
        ensures
            v == self.spec_minus(other),
    {
        IVec2 { x: self.x - other.x, y: self.y - other.y }
    }

    /// Both points agree to within `reach` on each axis.
    pub open spec fn near(self, other: IVec2, reach: int) -> bool {
        distance(self.x as int, other.x as int) <= reach
            && distance(self.y as int, other.y as int) <= reach
    }

    pub fn is_near(self, other: IVec2, reach: u32) -> (close: bool)
        ensures
            close == self.near(other, reach as int),
    {
        abs_diff(self.x, other.x) <= reach && abs_diff(self.y, other.y) <= reach
    }
}

pub fn abs_diff(a: i32, b: i32) -> (gap: u32)
    ensures
        gap == distance(a as int, b as int),
{
    if a >= b {
        (a as i64 - b as i64) as u32
    } else {
        (b as i64 - a as i64) as u32
    }
}

pub fn min_i32(a: i32, b: i32) -> (least: i32)
    ensures
        least == spec_min(a as int, b as int),
{
    if a <= b {
        a
    } else {
        b
    }
}

pub fn max_i32(a: i32, b: i32) -> (greatest: i32)
    ensures
        greatest == spec_max(a as int, b as int),
{
    if a >= b {
        a
    } else {
        b
    }
}

pub fn clamp_i32(v: i32, low: i32, high: i32) -> (inside: i32)
    requires
        low <= high,
    ensures
        inside == clamped(v as int, low as int, high as int),
{
    if v < low {
        low
    } else if v > high {
        high
    } else {
        v
    }
}

pub fn half(v: i32) -> (h: i32)
    ensures
        h == halved(v as int),
{
    if v >= 0 {
        v / 2
    } else {
        let positive: i64 = -(v as i64);
        (-(positive / 2)) as i32
    }
}

/// Half of a sum, rounded towards zero.
pub fn half_sum(a: i32, b: i32) -> (h: i32)
    ensures
        h == halved(a + b),
{
    let sum: i64 = a as i64 + b as i64;
    if sum >= 0 {
        (sum / 2) as i32
    } else {
        let positive: i64 = -sum;
        (-(positive / 2)) as i32
    }
}

/// A rectangle from its smallest to its largest corner, edges included.
#[derive(Clone, Copy, Debug, PartialEq, Eq, Structural)]
pub struct IRect {
    pub min: IVec2,
    pub max: IVec2,
}

impl IRect {
    /// The rectangle spanned by two opposite corners, in either order.
    pub open spec fn spanning(a: IVec2, b: IVec2) -> IRect {
        IRect {
            min: IVec2 {
                x: spec_min(a.x as int, b.x as int) as i32,
                y: spec_min(a.y as int, b.y as int) as i32,
            },
            max: IVec2 {
                x: spec_max(a.x as int, b.x as int) as i32,
                y: spec_max(a.y as int, b.y as int) as i32,
            },
        }
    }

    /// The rectangle of a window at `origin` with the extent `size`.
    pub open spec fn framed(origin: Origin, size: Size) -> IRect {
        IRect::spanning(origin, origin.spec_plus(size))
    }

    pub open spec fn ordered(self) -> bool {
        self.min.x <= self.max.x && self.min.y <= self.max.y
    }

    /// Whether both extents are numbers a point can hold.
    pub open spec fn measurable(self) -> bool {
        self.max.diff_fits(self.min)
    }

    pub open spec fn spec_width(self) -> int {
        self.max.x - self.min.x
    }

    pub open spec fn spec_height(self) -> int {
        self.max.y - self.min.y
    }

    pub open spec fn spec_size(self) -> Size {
        self.max.spec_minus(self.min)
    }

    /// Whether the two corners can be added, which the centre needs.
    pub open spec fn centerable(self) -> bool {
        self.min.sum_fits(self.max)
    }

    pub open spec fn spec_center(self) -> IVec2 {
        IVec2 {
            x: halved(self.min.x + self.max.x) as i32,
            y: halved(self.min.y + self.max.y) as i32,
        }
    }

    pub open spec fn holds(self, point: IVec2) -> bool {
        self.min.x <= point.x <= self.max.x && self.min.y <= point.y <= self.max.y
    }

    /// What both rectangles cover. Where they are apart on an axis, that axis
    /// collapses to the lower of the two far edges.
    pub open spec fn overlap(self, other: IRect) -> IRect {
        let max_x = spec_min(self.max.x as int, other.max.x as int);
        let max_y = spec_min(self.max.y as int, other.max.y as int);
        IRect {
            min: IVec2 {
                x: spec_min(spec_max(self.min.x as int, other.min.x as int), max_x) as i32,
                y: spec_min(spec_max(self.min.y as int, other.min.y as int), max_y) as i32,
            },
            max: IVec2 { x: max_x as i32, y: max_y as i32 },
        }
    }

    pub open spec fn vacant(self) -> bool {
        self.min.x >= self.max.x || self.min.y >= self.max.y
    }

    pub fn from_corners(a: IVec2, b: IVec2) -> (r: IRect)
        ensures
            r == IRect::spanning(a, b),
            r.ordered(),
    {
        IRect {
            min: IVec2 { x: min_i32(a.x, b.x), y: min_i32(a.y, b.y) },
            max: IVec2 { x: max_i32(a.x, b.x), y: max_i32(a.y, b.y) },
        }
    }

    pub fn new(x0: i32, y0: i32, x1: i32, y1: i32) -> (r: IRect)
        ensures
            r == IRect::spanning(IVec2 { x: x0, y: y0 }, IVec2 { x: x1, y: y1 }),
            r.ordered(),
    {
        IRect::from_corners(IVec2 { x: x0, y: y0 }, IVec2 { x: x1, y: y1 })
    }

    /// The frame of a window at `origin` with the extent `size`.
    pub fn from_frame(origin: Origin, size: Size) -> (r: IRect)
        requires
            origin.sum_fits(size),
        ensures
            r == IRect::framed(origin, size),
            r.ordered(),
    {
        IRect::from_corners(origin, origin.plus(size))
    }

    pub fn width(self) -> (w: i32)
        requires
            fits(self.spec_width()),
        ensures
            w == self.spec_width(),
    {
        self.max.x - self.min.x
    }

    pub fn height(self) -> (h: i32)
        requires
            fits(self.spec_height()),
        ensures
            h == self.spec_height(),
    {
        self.max.y - self.min.y
    }

    pub fn size(self) -> (s: Size)
        requires
            self.measurable(),
        ensures
            s == self.spec_size(),
    {
        self.max.minus(self.min)
    }

    pub fn center(self) -> (c: IVec2)
        requires
            self.centerable(),
        ensures
            c == self.spec_center(),
    {
        IVec2 { x: half(self.min.x + self.max.x), y: half(self.min.y + self.max.y) }
    }

    /// The centre, for corners that need not add up to a point.
    pub fn middle(self) -> (c: IVec2)
        ensures
            c == self.spec_center(),
    {
        IVec2 { x: half_sum(self.min.x, self.max.x), y: half_sum(self.min.y, self.max.y) }
    }

    pub fn contains(self, point: IVec2) -> (inside: bool)
        ensures
            inside == self.holds(point),
    {
        self.min.x <= point.x && point.x <= self.max.x && self.min.y <= point.y && point.y
            <= self.max.y
    }

    pub fn intersect(self, other: IRect) -> (r: IRect)
        ensures
            r == self.overlap(other),
            r.ordered(),
    {
        let max: IVec2 = IVec2 {
            x: min_i32(self.max.x, other.max.x),
            y: min_i32(self.max.y, other.max.y),
        };
        IRect {
            min: IVec2 {
                x: min_i32(max_i32(self.min.x, other.min.x), max.x),
                y: min_i32(max_i32(self.min.y, other.min.y), max.y),
            },
            max,
        }
    }

    pub fn is_empty(self) -> (empty: bool)
        ensures
            empty == self.vacant(),
    {
        self.min.x >= self.max.x || self.min.y >= self.max.y
    }
}

/// Two rectangles share a point exactly when that point lies in their overlap
/// and in both of them.
pub proof fn overlap_is_what_both_hold(a: IRect, b: IRect, point: IVec2)
    requires
        a.holds(point),
        b.holds(point),
    ensures
        a.overlap(b).holds(point),
{
}

} // verus!
