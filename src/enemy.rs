use vstd::prelude::*;

use crate::combat::{find_mark, CombatStats, Combatant};
use crate::geometry::{Heading, Point};

verus! {

/// Collider radius of an enemy, in thousandths of a unit.
pub const RADIUS: i32 = 20_000;

/// Point that idle enemies circle around.
pub const ORBIT_X: i32 = -250_000;
pub const ORBIT_Y: i32 = 350_000;

/// Speed of an enemy, in world units per second.
pub const SPEED: i64 = 50;

/// Pieces of debris left by a fallen enemy.
pub const DEBRIS_PER_DEATH: usize = 20;

/// Lifetime of a piece of debris, in milliseconds.
pub const DEBRIS_LIFETIME_MS: i64 = 10_000;

/// A short-lived inert piece of a fallen enemy.
#[derive(Clone, Copy, Debug, PartialEq, Eq, Structural)]
pub struct Debris {
    pub despawn_timer: i64,
    pub position: Point,
}

/// The record of an enemy as it spawns.
pub open spec fn fresh_enemy(r: CombatStats) -> bool {
    &&& r.aggro_radius == 200_000
    &&& r.attack_range == 100_000
    &&& r.attack_rate == 10
    &&& r.base_damage == 10
    &&& r.cooldown == 0
    &&& r.debris_despawn_timer == DEBRIS_LIFETIME_MS
    &&& r.health == 30
    &&& r.target_list@.len() == 0
}

/// Fighting record of a freshly spawned enemy.
pub fn enemy_stats() -> (r: CombatStats)
    ensures
        fresh_enemy(r),
{
    CombatStats {
        aggro_radius: 200_000,
        attack_range: 100_000,
        attack_rate: 10,
        base_damage: 10,
        cooldown: 0,
        debris_despawn_timer: DEBRIS_LIFETIME_MS,
        health: 30,
        target_list: Vec::new(),
    }
}

/// The four enemies of a new game, one per corner, with identities `first_id` onwards.
pub fn spawn_enemy(first_id: u64) -> (r: Vec<Combatant>)
    requires
        first_id + 4 <= u64::MAX,
    ensures
        r@.len() == 4,
        forall|i: int|
            0 <= i < 4 ==> {
                &&& (#[trigger] r@[i]).id == first_id + i
                &&& fresh_enemy(r@[i].stats)
            },
        r@[0].position.x == -300_000 && r@[0].position.y == 400_000,
        r@[1].position.x == 300_000 && r@[1].position.y == 400_000,
        r@[2].position.x == -300_000 && r@[2].position.y == -400_000,
        r@[3].position.x == 300_000 && r@[3].position.y == -400_000,
{
    let mut r: Vec<Combatant> = Vec::new();
    r.push(Combatant { id: first_id, position: Point { x: -300_000, y: 400_000 }, stats: enemy_stats() });
    r.push(Combatant { id: first_id + 1, position: Point { x: 300_000, y: 400_000 }, stats: enemy_stats() });
    r.push(Combatant { id: first_id + 2, position: Point { x: -300_000, y: -400_000 }, stats: enemy_stats() });
    r.push(Combatant { id: first_id + 3, position: Point { x: 300_000, y: -400_000 }, stats: enemy_stats() });
    r
}

/// Heading of an idle enemy: along the tangent of its circle around the orbit point.
pub open spec fn orbit_heading(position: Point) -> Heading {
    Heading::Along {
        x: (position.y - ORBIT_Y) as i64,
        y: (ORBIT_X - position.x) as i64,
        speed: SPEED,
    }
}

/// Rate at which every enemy turns about itself, in thousandths of a radian per
/// millisecond (radians per second).
pub const SPIN_RATE: i64 = 3;

/// Orientation of an enemy, in thousandths of a radian, after `dt_ms` more milliseconds of
/// turning: every enemy keeps turning, with or without targets.
pub fn spin(angle: i64, dt_ms: u32) -> (r: i64)
    requires
        angle + SPIN_RATE * dt_ms <= i64::MAX,
    ensures
        r == angle + SPIN_RATE * dt_ms,
{
    angle + SPIN_RATE * dt_ms as i64
}

/// Removes every enemy, as happens when the game is over.
pub fn despawn_enemy(enemies: &mut Vec<Combatant>)
    ensures
        final(enemies)@.len() == 0,
{
    enemies.clear();
}

/// An enemy without targets circles the orbit point; one with targets is left alone
/// (`None`).
pub fn passive_motion(stats: &CombatStats, position: Point) -> (r: Option<Heading>)
    ensures
        stats.target_list@.len() == 0 ==> r == Some(orbit_heading(position)),
        stats.target_list@.len() > 0 ==> r.is_none(),
{
    if stats.target_list.len() > 0 {
        return None;
    }
    Some(
        Heading::Along {
            x: position.y as i64 - ORBIT_Y as i64,
            y: ORBIT_X as i64 - position.x as i64,
            speed: SPEED,
        },
    )
}

/// Heading from `from` straight to `to` at `speed`.
pub open spec fn heading_to(from: Point, to: Point, speed: i64) -> Heading {
    Heading::Along { x: (to.x - from.x) as i64, y: (to.y - from.y) as i64, speed }
}

/// An enemy with a primary target that can be looked up in `seen` heads straight for it;
/// otherwise it is left alone (`None`).
pub fn aggro_motion(stats: &CombatStats, position: Point, seen: &Vec<crate::combat::Mark>) -> (r: Option<Heading>)
    ensures
        stats.target_list@.len() == 0 ==> r.is_none(),
        stats.target_list@.len() > 0 ==> r == match crate::combat::lookup(seen@, stats.target_list@[0]) {
            Some(t) => Some(heading_to(position, t, SPEED)),
            None => None,
        },
{
    if stats.target_list.len() == 0 {
        return None;
    }
    match find_mark(seen, stats.target_list[0]) {
        Some(t) => Some(
            Heading::Along {
                x: t.x as i64 - position.x as i64,
                y: t.y as i64 - position.y as i64,
                speed: SPEED,
            },
        ),
        None => None,
    }
}

/// The enemies still standing, in order.
pub open spec fn survivors(s: Seq<Combatant>) -> Seq<Combatant>
    decreases s.len(),
{
    if s.len() == 0 {
        Seq::empty()
    } else {
        let prev = survivors(s.drop_last());
        if s.last().stats.health > 0 {
            prev.push(s.last())
        } else {
            prev
        }
    }
}

/// Where the fallen enemies stood, in order.
pub open spec fn fallen_positions(s: Seq<Combatant>) -> Seq<Point>
    decreases s.len(),
{
    if s.len() == 0 {
        Seq::empty()
    } else {
        let prev = fallen_positions(s.drop_last());
        if s.last().stats.health <= 0 {
            prev.push(s.last().position)
        } else {
            prev
        }
    }
}

/// One batch of fresh debris at `p`.
pub open spec fn debris_batch(p: Point) -> Seq<Debris> {
    Seq::new(DEBRIS_PER_DEATH as nat, |k: int| Debris { despawn_timer: DEBRIS_LIFETIME_MS, position: p })
}

/// The debris left at each of the given places, batch after batch.
pub open spec fn debris_at(places: Seq<Point>) -> Seq<Debris>
    decreases places.len(),
{
    if places.len() == 0 {
        Seq::empty()
    } else {
        debris_at(places.drop_last()) + debris_batch(places.last())
    }
}

/// Removes every combatant whose health is at most zero, keeping the others in order.
/// Returns where the fallen stood, in order.
pub fn remove_fallen(combatants: &mut Vec<Combatant>) -> (fallen: Vec<Point>)
    ensures
        final(combatants)@ == survivors(old(combatants)@),
        fallen@ == fallen_positions(old(combatants)@),
        forall|i: int| 0 <= i < final(combatants)@.len() ==> (#[trigger] final(combatants)@[i]).stats.health > 0,
{
    let mut pending: Vec<Combatant> = Vec::new();
    std::mem::swap(&mut pending, combatants);
    let total = pending.len();
    let ghost start = pending@;
    let mut fallen: Vec<Point> = Vec::new();
    let mut i: usize = 0;
    while pending.len() > 0
        invariant
            i <= start.len() == total,
            pending@ == start.subrange(i as int, start.len() as int),
            combatants@ == survivors(start.take(i as int)),
            fallen@ == fallen_positions(start.take(i as int)),
        decreases pending@.len(),
    {
        assert(i < start.len());
        let c = pending.remove(0);
        assert(start.take(i + 1).drop_last() =~= start.take(i as int));
        assert(c == start[i as int]);
        assert(start.take(i + 1).last() == c);
        if c.stats.health <= 0 {
            fallen.push(c.position);
        } else {
            combatants.push(c);
        }
        i += 1;
    }
    assert(start.take(start.len() as int) =~= start);
    proof {
        lemma_survivors_alive(start);
    }
    fallen
}

/// The death step for enemies: every enemy whose health is at most zero leaves the world,
/// and each leaves exactly one batch of `DEBRIS_PER_DEATH` pieces of debris where it stood.
/// Returns the debris.
pub fn splodey(enemies: &mut Vec<Combatant>) -> (debris: Vec<Debris>)
    ensures
        final(enemies)@ == survivors(old(enemies)@),
        debris@ == debris_at(fallen_positions(old(enemies)@)),
        debris@.len() == DEBRIS_PER_DEATH * fallen_positions(old(enemies)@).len(),
        forall|f: int, k: int|
            0 <= f < fallen_positions(old(enemies)@).len() && 0 <= k < DEBRIS_PER_DEATH ==> #[trigger] debris@[batch_index(f, k)]
                == (Debris { despawn_timer: DEBRIS_LIFETIME_MS, position: fallen_positions(old(enemies)@)[f] }),
        forall|i: int| 0 <= i < final(enemies)@.len() ==> (#[trigger] final(enemies)@[i]).stats.health > 0,
{
    let ghost start = enemies@;
    let fallen = remove_fallen(enemies);
    let mut debris: Vec<Debris> = Vec::new();
    let mut i: usize = 0;
    while i < fallen.len()
        invariant
            i <= fallen@.len(),
            debris@ == debris_at(fallen@.take(i as int)),
        decreases fallen@.len() - i,
    {
        let p = fallen[i];
        let ghost base = debris@;
        let mut k: usize = 0;
        while k < DEBRIS_PER_DEATH
            invariant
                k <= DEBRIS_PER_DEATH,
                debris@ == base + debris_batch(p).take(k as int),
            decreases DEBRIS_PER_DEATH - k,
        {
            debris.push(Debris { despawn_timer: DEBRIS_LIFETIME_MS, position: p });
            assert(base + debris_batch(p).take(k + 1) =~= (base + debris_batch(p).take(k as int)).push(
                Debris { despawn_timer: DEBRIS_LIFETIME_MS, position: p },
            ));
            k += 1;
        }
        assert(debris_batch(p).take(DEBRIS_PER_DEATH as int) =~= debris_batch(p));
        assert(fallen@.take(i + 1).drop_last() =~= fallen@.take(i as int));
        i += 1;
    }
    assert(fallen@.take(fallen@.len() as int) =~= fallen@);
    proof {
        lemma_debris_len(fallen@);
        one_batch_per_fallen(start);
    }
    debris
}

proof fn lemma_survivors_alive(s: Seq<Combatant>)
    ensures
        forall|i: int| 0 <= i < survivors(s).len() ==> (#[trigger] survivors(s)[i]).stats.health > 0,
    decreases s.len(),
{
    if s.len() > 0 {
        lemma_survivors_alive(s.drop_last());
        let prev = survivors(s.drop_last());
        assert forall|i: int| 0 <= i < survivors(s).len() implies (#[trigger] survivors(s)[i]).stats.health > 0 by {
            if i < prev.len() {
                assert(survivors(s)[i] == prev[i]);
            }
        }
    }
}

/// Position of piece `k` of batch `f` among the debris.
pub open spec fn batch_index(f: int, k: int) -> int {
    DEBRIS_PER_DEATH * f + k
}

/// Every enemy either survives or falls; each fallen one leaves exactly one batch of
/// `DEBRIS_PER_DEATH` fresh pieces where it stood, batches in the order of the fallen.
pub proof fn one_batch_per_fallen(enemies: Seq<Combatant>)
    ensures
        survivors(enemies).len() + fallen_positions(enemies).len() == enemies.len(),
        debris_at(fallen_positions(enemies)).len() == DEBRIS_PER_DEATH * fallen_positions(enemies).len(),
        forall|f: int, k: int|
            0 <= f < fallen_positions(enemies).len() && 0 <= k < DEBRIS_PER_DEATH ==> #[trigger] debris_at(
                fallen_positions(enemies),
            )[batch_index(f, k)] == (Debris { despawn_timer: DEBRIS_LIFETIME_MS, position: fallen_positions(enemies)[f] }),
{
    lemma_split_counts(enemies);
    lemma_debris_len(fallen_positions(enemies));
    lemma_batches(fallen_positions(enemies));
}

proof fn lemma_split_counts(s: Seq<Combatant>)
    ensures
        survivors(s).len() + fallen_positions(s).len() == s.len(),
    decreases s.len(),
{
    if s.len() > 0 {
        lemma_split_counts(s.drop_last());
    }
}

proof fn lemma_batches(places: Seq<Point>)
    ensures
        forall|f: int, k: int|
            0 <= f < places.len() && 0 <= k < DEBRIS_PER_DEATH ==> #[trigger] debris_at(places)[batch_index(f, k)]
                == (Debris { despawn_timer: DEBRIS_LIFETIME_MS, position: places[f] }),
    decreases places.len(),
{
    if places.len() > 0 {
        let prev = places.drop_last();
        lemma_batches(prev);
        lemma_debris_len(prev);
        assert forall|f: int, k: int|
            0 <= f < places.len() && 0 <= k < DEBRIS_PER_DEATH implies #[trigger] debris_at(places)[batch_index(f, k)]
                == (Debris { despawn_timer: DEBRIS_LIFETIME_MS, position: places[f] }) by {
            if f < places.len() - 1 {
                assert(debris_at(places)[batch_index(f, k)] == debris_at(prev)[batch_index(f, k)]);
                assert(prev[f] == places[f]);
            }
        }
    }
}

proof fn lemma_debris_len(places: Seq<Point>)
    ensures
        debris_at(places).len() == DEBRIS_PER_DEATH * places.len(),
    decreases places.len(),
{
    if places.len() > 0 {
        lemma_debris_len(places.drop_last());
    }
}

/// The debris after `dt_ms` more milliseconds: every timer runs down, and pieces whose
/// timer reaches zero are gone.
pub open spec fn aged(s: Seq<Debris>, dt_ms: int) -> Seq<Debris>
    decreases s.len(),
{
    if s.len() == 0 {
        Seq::empty()
    } else {
        let prev = aged(s.drop_last(), dt_ms);
        let d = s.last();
        if d.despawn_timer - dt_ms > 0 {
            prev.push(Debris { despawn_timer: (d.despawn_timer - dt_ms) as i64, position: d.position })
        } else {
            prev
        }
    }
}

/// Runs every piece's timer down by `dt_ms` and removes those that run out.
pub fn despawn_debris(debris: &mut Vec<Debris>, dt_ms: u32)
    requires
        forall|i: int| 0 <= i < old(debris)@.len() ==> (#[trigger] old(debris)@[i]).despawn_timer >= i64::MIN + dt_ms,
    ensures
        final(debris)@ == aged(old(debris)@, dt_ms as int),
{
    let mut pending: Vec<Debris> = Vec::new();
    std::mem::swap(&mut pending, debris);
    let ghost start = pending@;
    let mut i: usize = 0;
    while i < pending.len()
        invariant
            i <= start.len(),
            pending@ == start,
            forall|j: int| 0 <= j < start.len() ==> (#[trigger] start[j]).despawn_timer >= i64::MIN + dt_ms,
            debris@ == aged(start.take(i as int), dt_ms as int),
        decreases start.len() - i,
    {
        let d = pending[i];
        assert(start.take(i + 1).drop_last() =~= start.take(i as int));
        let left = d.despawn_timer - dt_ms as i64;
        if left > 0 {
            debris.push(Debris { despawn_timer: left, position: d.position });
        }
        i += 1;
    }
    assert(start.take(start.len() as int) =~= start);
}

} // verus!
