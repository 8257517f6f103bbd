//! Points, sizes and axis-aligned boxes.
use vstd::prelude::*;

verus! {

/// Micro-pixels in one pixel.
pub const UNITS_PER_PIXEL: i64 = 1_000_000;

/// Largest magnitude of a coordinate that the simulation handles.
pub const COORD_LIMIT: i64 = 1_000_000_000_000_000;

/// Largest magnitude of a coordinate of the turret or of an invader: half
/// the range, which leaves room for the bullets that they fire.
pub const ANCHOR_LIMIT: i64 = 500_000_000_000_000;

/// Largest width or height of an actor.
pub const SIZE_LIMIT: i64 = 1_000_000_000_000_000;

/// A position: the center of an actor.
#[derive(Clone, Copy, Debug, PartialEq, Eq, Structural)]
pub struct Point {
    pub x: i64,
    pub y: i64,
}

/// The width and height of an actor.
#[derive(Clone, Copy, Debug, PartialEq, Eq, Structural)]
pub struct Size {
    pub w: i64,
    pub h: i64,
}

/// An axis-aligned box, with its edges in half units (twice the coordinate),
/// so that a box of odd size around an integer center stays exact.
#[derive(Clone, Copy, Debug, PartialEq, Eq, Structural)]
pub struct Aabb {
    pub left: i64,
    pub right: i64,
    pub bottom: i64,
    pub top: i64,
}

pub open spec fn coord_ok(v: int) -> bool {
    -COORD_LIMIT <= v <= COORD_LIMIT
}

pub open spec fn anchor_ok(v: int) -> bool {
    -ANCHOR_LIMIT <= v <= ANCHOR_LIMIT
}

impl Point {
    pub open spec fn is_anchor(self) -> bool {
        anchor_ok(self.x as int) && anchor_ok(self.y as int)
    }

    pub open spec fn is_valid(self) -> bool {
        coord_ok(self.x as int) && coord_ok(self.y as int)
    }
}

impl Size {
    pub open spec fn is_valid(self) -> bool {
        0 <= self.w <= SIZE_LIMIT && 0 <= self.h <= SIZE_LIMIT
    }
}

/// The box spanned by an actor of `size` centered on `pos`.
pub open spec fn box_of(pos: Point, size: Size) -> Aabb {
    Aabb {
        left: (2 * pos.x - size.w) as i64,
        right: (2 * pos.x + size.w) as i64,
        bottom: (2 * pos.y - size.h) as i64,
        top: (2 * pos.y + size.h) as i64,
    }
}

/// Closed intervals `[lo1, hi1]` and `[lo2, hi2]` share a point.
pub open spec fn spans_meet(lo1: int, hi1: int, lo2: int, hi2: int) -> bool {
    lo1 <= hi2 && hi1 >= lo2
}

/// Two boxes overlap, their edges included: boxes that only touch overlap.
pub open spec fn boxes_meet(a: Aabb, b: Aabb) -> bool {
    spans_meet(a.left as int, a.right as int, b.left as int, b.right as int)
        && spans_meet(a.bottom as int, a.top as int, b.bottom as int, b.top as int)
}

/// Two actors, given by center and size, collide.
pub open spec fn collide(p: Point, s: Size, q: Point, t: Size) -> bool {
    boxes_meet(box_of(p, s), box_of(q, t))
}

/// The box of an actor of `size` centered on `pos`.
pub fn bounds(pos: Point, size: Size) -> (r: Aabb)
    requires
        pos.is_valid(),
        size.is_valid(),
    ensures
        r == box_of(pos, size),
        r.left as int == 2 * pos.x - size.w,
        r.right as int == 2 * pos.x + size.w,
        r.bottom as int == 2 * pos.y - size.h,
        r.top as int == 2 * pos.y + size.h,
{
    Aabb {
        left: 2 * pos.x - size.w,
        right: 2 * pos.x + size.w,
        bottom: 2 * pos.y - size.h,
        top: 2 * pos.y + size.h,
    }
}

/// Whether two boxes overlap, touching edges counted as overlap.
pub fn overlaps(a: &Aabb, b: &Aabb) -> (r: bool)
    ensures
        r == boxes_meet(*a, *b),
{
    a.left <= b.right && a.right >= b.left && a.bottom <= b.top && a.top >= b.bottom
}

/// Whether the actor of size `s` at `p` and the one of size `t` at `q` collide.
pub fn collides(p: Point, s: Size, q: Point, t: Size) -> (r: bool)
    requires
        p.is_valid(),
        s.is_valid(),
        q.is_valid(),
        t.is_valid(),
    ensures
        r == collide(p, s, q, t),
{
    let a = bounds(p, s);
    let b = bounds(q, t);
    overlaps(&a, &b)
}

/// Boxes that share a vertical edge, with vertical extents that meet, collide:
/// a contact with no overlapping area still counts.
pub proof fn lemma_touching_side_collides(a: Aabb, b: Aabb)
    requires
        a.right == b.left,
        a.left <= a.right,
        b.left <= b.right,
        spans_meet(a.bottom as int, a.top as int, b.bottom as int, b.top as int),
    ensures
        boxes_meet(a, b),
        boxes_meet(b, a),
{
}

/// Boxes that share a horizontal edge, with horizontal extents that meet,
/// collide: a contact with no overlapping area still counts.
pub proof fn lemma_touching_top_collides(a: Aabb, b: Aabb)
    requires
        a.top == b.bottom,
        a.bottom <= a.top,
        b.bottom <= b.top,
        spans_meet(a.left as int, a.right as int, b.left as int, b.right as int),
    ensures
        boxes_meet(a, b),
        boxes_meet(b, a),
{
}

} // verus!
