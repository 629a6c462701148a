use vstd::prelude::*;

use rand::Rng;

use crate::combat::{find_mark, lookup, CombatStats, Combatant, Mark};
use crate::enemy::heading_to;
use crate::geometry::{dist2, distance_squared, fits_i32, Heading, Point};

verus! {

/// Collider radius of a hexling, in thousandths of a unit.
pub const HEXLING_RADIUS: i32 = 6_000;

/// Speed of a hexling, in world units per second.
pub const HEXLING_SPEED: i64 = 200;

/// Health a hexling loses, in tenths of a hit point, each time its attack lands.
pub const HEXLING_DETERIORATION: i64 = 1;

/// A recalled hexling stops once within this distance of the player.
pub const MIN_PLAYER_DISTANCE: i32 = 65_000;

/// A recalled hexling heads for the player when farther than this.
pub const MAX_PLAYER_DISTANCE: i32 = 85_000;

/// The record of a hexling as it spawns.
pub open spec fn fresh_hexling(r: CombatStats) -> bool {
    &&& r.aggro_radius == 50_000
    &&& r.attack_range == 10_000
    &&& r.attack_rate == 1
    &&& r.base_damage == 10
    &&& r.cooldown == 0
    &&& r.debris_despawn_timer == 0
    &&& r.health == 100
    &&& r.target_list@.len() == 0
}

/// Fighting record of a freshly spawned hexling.
pub fn hexling_stats() -> (r: CombatStats)
    ensures
        fresh_hexling(r),
{
    CombatStats {
        aggro_radius: 50_000,
        attack_range: 10_000,
        attack_rate: 1,
        base_damage: 10,
        cooldown: 0,
        debris_despawn_timer: 0,
        health: 100,
        target_list: Vec::new(),
    }
}

/// A new hexling `id` placed at `(dx, dy)` from the player.
pub fn spawn_hexling(id: u64, player: Point, dx: i32, dy: i32) -> (r: Combatant)
    requires
        fits_i32(player.x + dx),
        fits_i32(player.y + dy),
    ensures
        r.id == id,
        r.position.x == player.x + dx,
        r.position.y == player.y + dy,
        fresh_hexling(r.stats),
{
    Combatant { id, position: Point { x: player.x + dx, y: player.y + dy }, stats: hexling_stats() }
}

/// Relies on rand::thread_rng and rand::Rng::gen_range: a value drawn from `lo..hi`, which
/// panics on an empty range.
#[verifier::external_body]
fn draw_between(lo: i32, hi: i32) -> (r: i32)
    requires
        lo < hi,
    ensures
        lo <= r < hi,
{
    rand::thread_rng().gen_range(lo..hi)
}

/// A new hexling `id` placed at a random offset from the player, between the near and far
/// orbit distances along each axis.
pub fn spawn_hexling_near(id: u64, player: Point) -> (r: Combatant)
    requires
        fits_i32(player.x + MAX_PLAYER_DISTANCE),
        fits_i32(player.y + MAX_PLAYER_DISTANCE),
    ensures
        r.id == id,
        player.x + MIN_PLAYER_DISTANCE <= r.position.x < player.x + MAX_PLAYER_DISTANCE,
        player.y + MIN_PLAYER_DISTANCE <= r.position.y < player.y + MAX_PLAYER_DISTANCE,
        fresh_hexling(r.stats),
{
    let dx = draw_between(MIN_PLAYER_DISTANCE, MAX_PLAYER_DISTANCE);
    let dy = draw_between(MIN_PLAYER_DISTANCE, MAX_PLAYER_DISTANCE);
    spawn_hexling(id, player, dx, dy)
}

/// Heading of a recalled hexling at `position`: toward the player when beyond the far
/// distance, still when within the near one, and in between it keeps going toward the
/// player only if it was already moving.
pub open spec fn recall_heading(position: Point, player: Point, moving: bool) -> Heading {
    let d2 = dist2(position, player);
    if d2 > MAX_PLAYER_DISTANCE * MAX_PLAYER_DISTANCE {
        heading_to(position, player, HEXLING_SPEED)
    } else if d2 <= MIN_PLAYER_DISTANCE * MIN_PLAYER_DISTANCE {
        Heading::Still
    } else if moving {
        heading_to(position, player, HEXLING_SPEED)
    } else {
        Heading::Still
    }
}

/// One tick of a recalled hexling: it drops every target and steers by `recall_heading`,
/// where it counts as moving when `current` is not `Still`.
pub fn hexling_recall(stats: &mut CombatStats, position: Point, player: Point, current: Heading) -> (r: Heading)
    ensures
        final(stats).target_list@.len() == 0,
        crate::combat::same_but_targets(*final(stats), *old(stats)),
        r == recall_heading(position, player, current != Heading::Still),
{
    stats.target_list.clear();
    let d2 = distance_squared(position, player);
    let far: i128 = MAX_PLAYER_DISTANCE as i128 * MAX_PLAYER_DISTANCE as i128;
    let near: i128 = MIN_PLAYER_DISTANCE as i128 * MIN_PLAYER_DISTANCE as i128;
    let toward = Heading::Along {
        x: player.x as i64 - position.x as i64,
        y: player.y as i64 - position.y as i64,
        speed: HEXLING_SPEED,
    };
    let moving = match current {
        Heading::Still => false,
        Heading::Along { .. } => true,
    };
    if d2 > far {
        toward
    } else if d2 <= near {
        Heading::Still
    } else if moving {
        toward
    } else {
        Heading::Still
    }
}

/// Heading straight away from the player at hexling speed.
pub open spec fn away_from(position: Point, player: Point) -> Heading {
    Heading::Along {
        x: (position.x - player.x) as i64,
        y: (position.y - player.y) as i64,
        speed: HEXLING_SPEED,
    }
}

/// One tick of a charging hexling: without targets it heads straight away from the player;
/// with a primary target that can be looked up in `seen` it heads for it; a primary target
/// that cannot be looked up leaves it alone (`None`).
pub fn hexling_charge(stats: &CombatStats, position: Point, player: Point, seen: &Vec<Mark>) -> (r: Option<Heading>)
    ensures
        stats.target_list@.len() == 0 ==> r == Some(away_from(position, player)),
        stats.target_list@.len() > 0 ==> r == match lookup(seen@, stats.target_list@[0]) {
            Some(t) => Some(heading_to(position, t, HEXLING_SPEED)),
            None => None,
        },
{
    if stats.target_list.len() == 0 {
        return Some(
            Heading::Along {
                x: position.x as i64 - player.x as i64,
                y: position.y as i64 - player.y as i64,
                speed: HEXLING_SPEED,
            },
        );
    }
    match find_mark(seen, stats.target_list[0]) {
        Some(t) => Some(
            Heading::Along {
                x: t.x as i64 - position.x as i64,
                y: t.y as i64 - position.y as i64,
                speed: HEXLING_SPEED,
            },
        ),
        None => None,
    }
}

/// The combatants of `s` whose identity is `keep`, in order.
pub open spec fn kept_only(s: Seq<Combatant>, keep: u64) -> Seq<Combatant>
    decreases s.len(),
{
    if s.len() == 0 {
        Seq::empty()
    } else if s.last().id == keep {
        kept_only(s.drop_last(), keep).push(s.last())
    } else {
        kept_only(s.drop_last(), keep)
    }
}

/// Removes every hexling from the player's side, as happens when the game is over: only
/// the player, identified by `player`, stays.
pub fn despawn_hexlings(friendlies: &mut Vec<Combatant>, player: u64)
    ensures
        final(friendlies)@ == kept_only(old(friendlies)@, player),
{
    let mut pending: Vec<Combatant> = Vec::new();
    std::mem::swap(&mut pending, friendlies);
    let total = pending.len();
    let ghost start = pending@;
    let mut i: usize = 0;
    while pending.len() > 0
        invariant
            i <= start.len() == total,
            pending@ == start.subrange(i as int, start.len() as int),
            friendlies@ == kept_only(start.take(i as int), player),
        decreases pending@.len(),
    {
        assert(i < start.len());
        let c = pending.remove(0);
        assert(start.take(i + 1).drop_last() =~= start.take(i as int));
        assert(c == start[i as int]);
        assert(start.take(i + 1).last() == c);
        if c.id == player {
            friendlies.push(c);
        }
        i += 1;
    }
    assert(start.take(start.len() as int) =~= start);
}

} // verus!
