use vstd::prelude::*;

verus! {

/// A position in the plane, in thousandths of a world unit.
#[derive(Clone, Copy, Debug, PartialEq, Eq, Structural)]
pub struct Point {
    pub x: i32,
    pub y: i32,
}

impl Point {
    pub fn new(x: i32, y: i32) -> (r: Point)
        ensures
            r.x == x,
            r.y == y,
    {
        Point { x, y }
    }
}

/// Squared euclidean distance between two points.
pub open spec fn dist2(a: Point, b: Point) -> int {
    (a.x - b.x) * (a.x - b.x) + (a.y - b.y) * (a.y - b.y)
}

/// The distance from `a` to `b` is strictly below `r`.
pub open spec fn closer_than(a: Point, b: Point, r: int) -> bool {
    r > 0 && dist2(a, b) < r * r
}

/// A velocity, in world units per second (thousandths of a unit per millisecond).
#[derive(Clone, Copy, Debug, PartialEq, Eq, Structural)]
pub struct Velocity {
    pub x: i32,
    pub y: i32,
}

impl Velocity {
    pub fn new(x: i32, y: i32) -> (r: Velocity)
        ensures
            r.x == x,
            r.y == y,
    {
        Velocity { x, y }
    }
}

/// A steering request: move along the direction `(x, y)` at `speed` world units per
/// second. The direction need not be of unit length; a zero direction means standing still.
#[derive(Clone, Copy, Debug, PartialEq, Eq, Structural)]
pub enum Heading {
    Still,
    Along { x: i64, y: i64, speed: i64 },
}

proof fn lemma_square_bound(d: int)
    requires
        -0x1_0000_0000 <= d <= 0x1_0000_0000,
    ensures
        0 <= d * d <= 0x1_0000_0000_0000_0000,
{
    assert(0 <= d * d <= 0x1_0000_0000_0000_0000) by (nonlinear_arith)
        requires
            -0x1_0000_0000 <= d <= 0x1_0000_0000,
    ;
}

/// Squared distances are never negative and stay below 2^65.
pub proof fn lemma_dist2_bounds(a: Point, b: Point)
    ensures
        0 <= dist2(a, b) <= 0x2_0000_0000_0000_0000,
{
    lemma_square_bound(a.x - b.x);
    lemma_square_bound(a.y - b.y);
}

/// Squared distance between two points, exactly.
pub fn distance_squared(a: Point, b: Point) -> (r: i128)
    ensures
        r == dist2(a, b),
        r >= 0,
{
    let dx: i128 = a.x as i128 - b.x as i128;
    let dy: i128 = a.y as i128 - b.y as i128;
    proof {
        lemma_square_bound(dx as int);
        lemma_square_bound(dy as int);
    }
    dx * dx + dy * dy
}

/// Whether the distance from `a` to `b` is strictly below `r`.
pub fn is_closer_than(a: Point, b: Point, r: i64) -> (res: bool)
    ensures
        res == closer_than(a, b, r as int),
{
    if r <= 0 {
        return false;
    }
    let d = distance_squared(a, b);
    proof {
        assert(0 < r * r <= 0x4000_0000_0000_0000_0000_0000_0000_0000) by (nonlinear_arith)
            requires
                0 < r <= 0x7fff_ffff_ffff_ffff,
        ;
    }
    let rr: i128 = (r as i128) * (r as i128);
    d < rr
}

/// The point reached from `p` after moving at velocity `v` for `dt_ms` milliseconds.
pub open spec fn moved(p: Point, v: Velocity, dt_ms: int) -> (int, int) {
    (p.x + v.x * dt_ms, p.y + v.y * dt_ms)
}

pub open spec fn fits_i32(v: int) -> bool {
    i32::MIN <= v <= i32::MAX
}

/// Moves `p` at velocity `v` for `dt_ms` milliseconds.
pub fn update_position(p: &mut Point, v: Velocity, dt_ms: u32)
    requires
        fits_i32(moved(*old(p), v, dt_ms as int).0),
        fits_i32(moved(*old(p), v, dt_ms as int).1),
    ensures
        final(p).x == moved(*old(p), v, dt_ms as int).0,
        final(p).y == moved(*old(p), v, dt_ms as int).1,
{
    proof {
        assert(-0x8000_0000_0000_0000 <= v.x * dt_ms <= 0x8000_0000_0000_0000) by (nonlinear_arith)
            requires
                i32::MIN <= v.x <= i32::MAX,
                0 <= dt_ms <= u32::MAX,
        ;
        assert(-0x8000_0000_0000_0000 <= v.y * dt_ms <= 0x8000_0000_0000_0000) by (nonlinear_arith)
            requires
                i32::MIN <= v.y <= i32::MAX,
                0 <= dt_ms <= u32::MAX,
        ;
    }
    let nx: i128 = p.x as i128 + (v.x as i128) * (dt_ms as i128);
    let ny: i128 = p.y as i128 + (v.y as i128) * (dt_ms as i128);
    p.x = nx as i32;
    p.y = ny as i32;
}

} // verus!
