//! Points and axis-aligned rectangles on an integer plane.

use vstd::prelude::*;

verus! {

/// A point, or a vector from the origin.
#[derive(Clone, Copy, Debug, PartialEq, Eq, Structural)]
pub struct Point {
    pub x: i64,
    pub y: i64,
}

/// An axis-aligned rectangle: top-left corner `(x, y)`, width `w`, height `h`.
#[derive(Clone, Copy, Debug, PartialEq, Eq, Structural)]
pub struct Rect {
    pub x: i64,
    pub y: i64,
    pub w: i64,
    pub h: i64,
}

/// The closed rectangle with corner `(x, y)` and size `w` by `h` holds `(px, py)`.
pub open spec fn box_contains(x: int, y: int, w: int, h: int, px: int, py: int) -> bool {
    x <= px <= x + w && y <= py <= y + h
}

/// The open intervals `(a, a + aw)` and `(b, b + bw)` meet.
pub open spec fn intervals_meet(a: int, aw: int, b: int, bw: int) -> bool {
    a < b + bw && b < a + aw
}

/// Squared Euclidean distance between two points.
pub open spec fn dist_sq(ax: int, ay: int, bx: int, by: int) -> int {
    (ax - bx) * (ax - bx) + (ay - by) * (ay - by)
}

impl Point {
    pub fn new(x: i64, y: i64) -> (r: Point)
        ensures
            r.x == x,
            r.y == y,
    {
        Point { x, y }
    }
}

impl Rect {
    /// The rectangle holds the point, its border included.
    pub open spec fn spec_contains(self, px: int, py: int) -> bool {
        box_contains(self.x as int, self.y as int, self.w as int, self.h as int, px, py)
    }

    /// The rectangle's size is not negative.
    pub open spec fn well_formed(self) -> bool {
        self.w >= 0 && self.h >= 0
    }

    pub fn new(x: i64, y: i64, w: i64, h: i64) -> (r: Rect)
        ensures
            r.x == x,
            r.y == y,
            r.w == w,
            r.h == h,
    {
        Rect { x, y, w, h }
    }

    /// Whether `p` lies in the rectangle or on its border.
    pub fn contains(&self, p: Point) -> (r: bool)
        ensures
            r == self.spec_contains(p.x as int, p.y as int),
    {
        let right = self.x as i128 + self.w as i128;
        let bottom = self.y as i128 + self.h as i128;
        p.x >= self.x && (p.x as i128) <= right && p.y >= self.y && (p.y as i128) <= bottom
    }
}

fn check_intersection(a: i64, aw: i64, b: i64, bw: i64) -> (r: bool)
    ensures
        r == intervals_meet(a as int, aw as int, b as int, bw as int),
{
    (a as i128) < (b as i128) + (bw as i128) && (b as i128) < (a as i128) + (aw as i128)
}

/// Whether the interiors of two rectangles overlap: rectangles that only touch
/// along an edge do not collide.
pub fn check_collision(a: Rect, b: Rect) -> (r: bool)
    ensures
        r == (intervals_meet(a.x as int, a.w as int, b.x as int, b.w as int)
            && intervals_meet(a.y as int, a.h as int, b.y as int, b.h as int)),
{
    if check_intersection(a.x, a.w, b.x, b.w) && check_intersection(a.y, a.h, b.y, b.h) {
        true
    } else {
        false
    }
}

} // verus!
