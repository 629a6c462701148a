use vstd::prelude::*;

use crate::geometry::{closer_than, is_closer_than, fits_i32, Point, Velocity};

verus! {

/// Velocity added to the player, per wall contact and per axis, on each tick of contact:
/// half the player's speed.
pub const WALL_NUDGE: i32 = 100;

/// Speed at which a hexling is pushed out of whatever it touches, in world units per second.
pub const HEXLING_PUSH_SPEED: i32 = 200;

/// The side of the other shape on which an entity touches it.
#[derive(Clone, Copy, Debug, PartialEq, Eq, Structural)]
pub enum Collision {
    Top,
    Bottom,
    Left,
    Right,
    Inside,
}

/// Bounding circle of an entity, and what it touched on the last detection pass.
pub struct Collider {
    pub radius: i32,
    pub colliding_entities: Vec<(u64, Collision)>,
}

impl Collider {
    pub fn new(radius: i32) -> (r: Collider)
        ensures
            r.radius == radius,
            r.colliding_entities@.len() == 0,
    {
        Collider { radius, colliding_entities: Vec::new() }
    }
}

/// An entity that takes part in collision detection.
pub struct Body {
    pub id: u64,
    pub position: Point,
    pub collider: Collider,
}

/// The two circles overlap: the distance of the centres is below the sum of the radii.
pub open spec fn overlapping(a: Point, ra: int, b: Point, rb: int) -> bool {
    closer_than(a, b, ra + rb)
}

/// Side and penetration depth along x of the square of half-width `ra` at `a` against the
/// square of half-width `rb` at `b`; no depth stands for an unbounded one.
pub open spec fn side_x(a: Point, ra: int, b: Point, rb: int) -> (Collision, Option<int>) {
    let (a_min, a_max, b_min, b_max) = (a.x - ra, a.x + ra, b.x - rb, b.x + rb);
    if a_min < b_min && a_max > b_min && a_max < b_max {
        (Collision::Left, Some(a_max - b_min))
    } else if a_min > b_min && a_min < b_max && a_max > b_max {
        (Collision::Right, Some(b_max - a_min))
    } else {
        (Collision::Inside, None)
    }
}

/// Side and penetration depth along y, as `side_x`.
pub open spec fn side_y(a: Point, ra: int, b: Point, rb: int) -> (Collision, Option<int>) {
    let (a_min, a_max, b_min, b_max) = (a.y - ra, a.y + ra, b.y - rb, b.y + rb);
    if a_min < b_min && a_max > b_min && a_max < b_max {
        (Collision::Bottom, Some(a_max - b_min))
    } else if a_min > b_min && a_min < b_max && a_max > b_max {
        (Collision::Top, Some(b_max - a_min))
    } else {
        (Collision::Inside, None)
    }
}

/// The bounding squares of the two entities intersect.
pub open spec fn boxes_meet(a: Point, ra: int, b: Point, rb: int) -> bool {
    a.x - ra < b.x + rb && a.x + ra > b.x - rb && a.y - ra < b.y + rb && a.y + ra > b.y - rb
}

/// Contact side of `a` against `b` for their bounding squares: the axis of least
/// penetration wins, and x wins a tie.
pub open spec fn box_contact(a: Point, ra: int, b: Point, rb: int) -> Option<Collision> {
    if boxes_meet(a, ra, b, rb) {
        let (xs, xd) = side_x(a, ra, b, rb);
        let (ys, yd) = side_y(a, ra, b, rb);
        let y_wins = match (yd, xd) {
            (Some(y), Some(x)) => y < x,
            (Some(_), None) => true,
            (None, _) => false,
        };
        if y_wins {
            Some(ys)
        } else {
            Some(xs)
        }
    } else {
        None
    }
}

/// What `a` records of `b` on a detection pass: nothing for itself or for a shape it does
/// not overlap, else the side of contact.
pub open spec fn contact(a: Body, b: Body) -> Option<Collision> {
    if a.id != b.id && overlapping(a.position, a.collider.radius as int, b.position, b.collider.radius as int) {
        box_contact(a.position, a.collider.radius as int, b.position, b.collider.radius as int)
    } else {
        None
    }
}

/// The contacts of `a` among the first `n` entries of `bodies`, in their order.
pub open spec fn contacts_among(a: Body, bodies: Seq<Body>, n: nat) -> Seq<(u64, Collision)>
    decreases n,
{
    if n == 0 {
        Seq::empty()
    } else {
        let prev = contacts_among(a, bodies, (n - 1) as nat);
        match contact(a, bodies[n - 1]) {
            Some(c) => prev.push((bodies[n - 1].id, c)),
            None => prev,
        }
    }
}

/// Whether two circles overlap.
pub fn overlaps(a: Point, ra: i32, b: Point, rb: i32) -> (r: bool)
    ensures
        r == overlapping(a, ra as int, b, rb as int),
{
    is_closer_than(a, b, ra as i64 + rb as i64)
}

/// Overlap of circular colliders does not depend on the order of the two.
pub proof fn overlap_is_symmetric(a: Point, ra: int, b: Point, rb: int)
    ensures
        overlapping(a, ra, b, rb) == overlapping(b, rb, a, ra),
        boxes_meet(a, ra, b, rb) == boxes_meet(b, rb, a, ra),
{
    assert((a.x - b.x) * (a.x - b.x) == (b.x - a.x) * (b.x - a.x)) by (nonlinear_arith);
    assert((a.y - b.y) * (a.y - b.y) == (b.y - a.y) * (b.y - a.y)) by (nonlinear_arith);
}

/// When an entity records a contact with another, the other records one with it.
pub proof fn contact_is_symmetric(a: Body, b: Body)
    ensures
        contact(a, b).is_some() == contact(b, a).is_some(),
{
    overlap_is_symmetric(a.position, a.collider.radius as int, b.position, b.collider.radius as int);
}

/// Contact side of the square of half-width `ra` at `a` against that of half-width `rb` at `b`.
pub fn collide(a: Point, ra: i32, b: Point, rb: i32) -> (r: Option<Collision>)
    ensures
        r == box_contact(a, ra as int, b, rb as int),
{
    let (a_min_x, a_max_x) = (a.x as i64 - ra as i64, a.x as i64 + ra as i64);
    let (a_min_y, a_max_y) = (a.y as i64 - ra as i64, a.y as i64 + ra as i64);
    let (b_min_x, b_max_x) = (b.x as i64 - rb as i64, b.x as i64 + rb as i64);
    let (b_min_y, b_max_y) = (b.y as i64 - rb as i64, b.y as i64 + rb as i64);
    if !(a_min_x < b_max_x && a_max_x > b_min_x && a_min_y < b_max_y && a_max_y > b_min_y) {
        return None;
    }
    let (xs, xd): (Collision, Option<i64>) = if a_min_x < b_min_x && a_max_x > b_min_x
        && a_max_x < b_max_x {
        (Collision::Left, Some(a_max_x - b_min_x))
    } else if a_min_x > b_min_x && a_min_x < b_max_x && a_max_x > b_max_x {
        (Collision::Right, Some(b_max_x - a_min_x))
    } else {
        (Collision::Inside, None)
    };
    let (ys, yd): (Collision, Option<i64>) = if a_min_y < b_min_y && a_max_y > b_min_y
        && a_max_y < b_max_y {
        (Collision::Bottom, Some(a_max_y - b_min_y))
    } else if a_min_y > b_min_y && a_min_y < b_max_y && a_max_y > b_max_y {
        (Collision::Top, Some(b_max_y - a_min_y))
    } else {
        (Collision::Inside, None)
    };
    let y_wins = match (yd, xd) {
        (Some(y), Some(x)) => y < x,
        (Some(_), None) => true,
        (None, _) => false,
    };
    if y_wins {
        Some(ys)
    } else {
        Some(xs)
    }
}

/// The contacts of `bodies[i]` with every other entry, in order.
fn contacts_of(bodies: &Vec<Body>, i: usize) -> (r: Vec<(u64, Collision)>)
    requires
        i < bodies@.len(),
    ensures
        r@ == contacts_among(bodies@[i as int], bodies@, bodies@.len()),
{
    let a = &bodies[i];
    let mut found: Vec<(u64, Collision)> = Vec::new();
    let mut j: usize = 0;
    while j < bodies.len()
        invariant
            j <= bodies@.len(),
            i < bodies@.len(),
            a == bodies@[i as int],
            found@ == contacts_among(bodies@[i as int], bodies@, j as nat),
        decreases bodies@.len() - j,
    {
        let b = &bodies[j];
        if a.id != b.id && overlaps(a.position, a.collider.radius, b.position, b.collider.radius) {
            match collide(a.position, a.collider.radius, b.position, b.collider.radius) {
                Some(c) => found.push((b.id, c)),
                None => {},
            }
        }
        j += 1;
    }
    found
}

/// Recomputes every entity's contacts from scratch: each entity records, in the order of
/// `bodies`, every other entity whose circle overlaps its own, with the side of contact.
/// Nothing of the previous pass survives.
pub fn collision_detection(bodies: &mut Vec<Body>)
    ensures
        final(bodies)@.len() == old(bodies)@.len(),
        forall|i: int|
            0 <= i < old(bodies)@.len() ==> {
                &&& #[trigger] final(bodies)@[i].id == old(bodies)@[i].id
                &&& final(bodies)@[i].position == old(bodies)@[i].position
                &&& final(bodies)@[i].collider.radius == old(bodies)@[i].collider.radius
                &&& final(bodies)@[i].collider.colliding_entities@ == contacts_among(
                    old(bodies)@[i],
                    old(bodies)@,
                    old(bodies)@.len(),
                )
            },
{
    let mut updated: Vec<Body> = Vec::new();
    let mut i: usize = 0;
    while i < bodies.len()
        invariant
            i <= bodies@.len(),
            updated@.len() == i,
            forall|k: int|
                0 <= k < i ==> {
                    &&& #[trigger] updated@[k].id == bodies@[k].id
                    &&& updated@[k].position == bodies@[k].position
                    &&& updated@[k].collider.radius == bodies@[k].collider.radius
                    &&& updated@[k].collider.colliding_entities@ == contacts_among(
                        bodies@[k],
                        bodies@,
                        bodies@.len(),
                    )
                },
        decreases bodies@.len() - i,
    {
        let found = contacts_of(bodies, i);
        let b = &bodies[i];
        updated.push(
            Body {
                id: b.id,
                position: b.position,
                collider: Collider { radius: b.collider.radius, colliding_entities: found },
            },
        );
        i += 1;
    }
    *bodies = updated;
}

/// Unit push away from the shape touched on the given side.
pub open spec fn push_of(side: Collision) -> (int, int) {
    match side {
        Collision::Top => (0, 1),
        Collision::Bottom => (0, -1),
        Collision::Left => (-1, 0),
        Collision::Right => (1, 0),
        Collision::Inside => (1, 1),
    }
}

/// Sum of the pushes of the first `n` contacts, counting only contacts with an entity
/// in `walls`.
pub open spec fn wall_push(contacts: Seq<(u64, Collision)>, walls: Seq<u64>, n: nat) -> (int, int)
    decreases n,
{
    if n == 0 {
        (0, 0)
    } else {
        let prev = wall_push(contacts, walls, (n - 1) as nat);
        if walls.contains(contacts[n - 1].0) {
            (prev.0 + push_of(contacts[n - 1].1).0, prev.1 + push_of(contacts[n - 1].1).1)
        } else {
            prev
        }
    }
}

/// Sum of the pushes of the first `n` contacts.
pub open spec fn total_push(contacts: Seq<(u64, Collision)>, n: nat) -> (int, int)
    decreases n,
{
    if n == 0 {
        (0, 0)
    } else {
        let prev = total_push(contacts, (n - 1) as nat);
        (prev.0 + push_of(contacts[n - 1].1).0, prev.1 + push_of(contacts[n - 1].1).1)
    }
}

/// Whether `id` is among `ids`.
pub fn contains_id(ids: &Vec<u64>, id: u64) -> (r: bool)
    ensures
        r == ids@.contains(id),
{
    let mut i: usize = 0;
    while i < ids.len()
        invariant
            i <= ids@.len(),
            forall|k: int| 0 <= k < i ==> ids@[k] != id,
        decreases ids@.len() - i,
    {
        if ids[i] == id {
            return true;
        }
        i += 1;
    }
    false
}

fn push_vec(side: Collision) -> (r: (i128, i128))
    ensures
        r.0 == push_of(side).0,
        r.1 == push_of(side).1,
{
    match side {
        Collision::Top => (0, 1),
        Collision::Bottom => (0, -1),
        Collision::Left => (-1, 0),
        Collision::Right => (1, 0),
        Collision::Inside => (1, 1),
    }
}

/// The player is pushed away from every wall it touches: for each contact with an entity
/// in `walls`, `WALL_NUDGE` is added to its velocity away from the wall's side.
pub fn handle_player_collisions(velocity: &mut Velocity, collider: &Collider, walls: &Vec<u64>)
    requires
        fits_i32(old(velocity).x + WALL_NUDGE * wall_push(
            collider.colliding_entities@,
            walls@,
            collider.colliding_entities@.len(),
        ).0),
        fits_i32(old(velocity).y + WALL_NUDGE * wall_push(
            collider.colliding_entities@,
            walls@,
            collider.colliding_entities@.len(),
        ).1),
    ensures
        final(velocity).x == old(velocity).x + WALL_NUDGE * wall_push(
            collider.colliding_entities@,
            walls@,
            collider.colliding_entities@.len(),
        ).0,
        final(velocity).y == old(velocity).y + WALL_NUDGE * wall_push(
            collider.colliding_entities@,
            walls@,
            collider.colliding_entities@.len(),
        ).1,
{
    let contacts = &collider.colliding_entities;
    let mut px: i128 = 0;
    let mut py: i128 = 0;
    let mut i: usize = 0;
    while i < contacts.len()
        invariant
            i <= contacts@.len(),
            px == wall_push(contacts@, walls@, i as nat).0,
            py == wall_push(contacts@, walls@, i as nat).1,
            -(i as int) <= px <= i,
            -(i as int) <= py <= i,
        decreases contacts@.len() - i,
    {
        let (other, side) = contacts[i];
        if contains_id(walls, other) {
            let (dx, dy) = push_vec(side);
            px = px + dx;
            py = py + dy;
        }
        i += 1;
    }
    velocity.x = (velocity.x as i128 + (WALL_NUDGE as i128) * px) as i32;
    velocity.y = (velocity.y as i128 + (WALL_NUDGE as i128) * py) as i32;
}

/// A hexling is displaced out of everything it touches: for each contact, whatever the
/// other entity, it moves `HEXLING_PUSH_SPEED * dt_ms` thousandths of a unit away from
/// the side touched.
pub fn handle_hexling_collisions(position: &mut Point, collider: &Collider, dt_ms: u32)
    requires
        fits_i32(old(position).x + HEXLING_PUSH_SPEED * dt_ms * total_push(
            collider.colliding_entities@,
            collider.colliding_entities@.len(),
        ).0),
        fits_i32(old(position).y + HEXLING_PUSH_SPEED * dt_ms * total_push(
            collider.colliding_entities@,
            collider.colliding_entities@.len(),
        ).1),
    ensures
        final(position).x == old(position).x + HEXLING_PUSH_SPEED * dt_ms * total_push(
            collider.colliding_entities@,
            collider.colliding_entities@.len(),
        ).0,
        final(position).y == old(position).y + HEXLING_PUSH_SPEED * dt_ms * total_push(
            collider.colliding_entities@,
            collider.colliding_entities@.len(),
        ).1,
{
    let contacts = &collider.colliding_entities;
    let mut px: i128 = 0;
    let mut py: i128 = 0;
    let mut i: usize = 0;
    while i < contacts.len()
        invariant
            i <= contacts@.len(),
            px == total_push(contacts@, i as nat).0,
            py == total_push(contacts@, i as nat).1,
            -(i as int) <= px <= i,
            -(i as int) <= py <= i,
        decreases contacts@.len() - i,
    {
        let (_, side) = contacts[i];
        let (dx, dy) = push_vec(side);
        px = px + dx;
        py = py + dy;
        i += 1;
    }
    let step: i128 = (HEXLING_PUSH_SPEED as i128) * (dt_ms as i128);
    proof {
        assert(-0x1_0000_0000_0000_0000_0000_0000_0000 <= step * px
            <= 0x1_0000_0000_0000_0000_0000_0000_0000) by (nonlinear_arith)
            requires
                0 <= step <= 0x100_0000_0000,
                -0x1_0000_0000_0000_0000 <= px <= 0x1_0000_0000_0000_0000,
        ;
        assert(-0x1_0000_0000_0000_0000_0000_0000_0000 <= step * py
            <= 0x1_0000_0000_0000_0000_0000_0000_0000) by (nonlinear_arith)
            requires
                0 <= step <= 0x100_0000_0000,
                -0x1_0000_0000_0000_0000 <= py <= 0x1_0000_0000_0000_0000,
        ;
    }
    position.x = (position.x as i128 + step * px) as i32;
    position.y = (position.y as i128 + step * py) as i32;
}

} // verus!
