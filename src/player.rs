use vstd::prelude::*;

use crate::combat::{same_but_targets, CombatStats, Combatant};
use crate::geometry::{Point, Velocity};

verus! {

/// Speed of the player, in world units per second.
pub const SPEED: i32 = 200;

/// Collider radius of the player, in thousandths of a unit.
pub const PLAYER_RADIUS: i32 = 30_000;

/// Health of a new player, in tenths of a hit point.
pub const STARTING_HEALTH: i64 = 500;

/// Where the player enters the world, in thousandths of a unit.
pub const STARTING_X: i32 = 200_000;
pub const STARTING_Y: i32 = 0;

/// How long the spawn key must be held before a hexling appears, in milliseconds.
pub const SPAWN_KEY_MS: u64 = 1500;

/// What every hexling is doing; one mode governs them all.
#[derive(Clone, Copy, Debug, PartialEq, Eq, Hash, Structural)]
pub enum HexlingState {
    Recalling,
    Charging,
}

/// Whether the spawn key is waiting for a long press or for its release.
#[derive(Clone, Copy, Debug, PartialEq, Eq, Hash, Structural)]
pub enum HexlingSpawnState {
    Idle,
    Spawning,
}

/// How long the spawn key has been held, in milliseconds.
#[derive(Clone, Copy, Debug, PartialEq, Eq, Structural)]
pub struct SpawnKeyHeld {
    pub duration: u64,
}

/// The player's directional intents for this tick.
#[derive(Clone, Copy, Debug, PartialEq, Eq, Structural)]
pub struct Controls {
    pub up: bool,
    pub down: bool,
    pub left: bool,
    pub right: bool,
}

/// Fighting record of a new player: it never attacks and acquires nothing.
pub fn player_stats() -> (r: CombatStats)
    ensures
        r.aggro_radius == 0,
        r.attack_range == 0,
        r.attack_rate == 0,
        r.base_damage == 0,
        r.cooldown == 0,
        r.debris_despawn_timer == 0,
        r.health == STARTING_HEALTH,
        r.target_list@.len() == 0,
{
    CombatStats {
        aggro_radius: 0,
        attack_range: 0,
        attack_rate: 0,
        base_damage: 0,
        cooldown: 0,
        debris_despawn_timer: 0,
        health: STARTING_HEALTH,
        target_list: Vec::new(),
    }
}

/// The player `id` as it enters the world: at the starting point, with a fresh record.
pub fn spawn_player(id: u64) -> (r: Combatant)
    ensures
        r.id == id,
        r.position.x == STARTING_X,
        r.position.y == STARTING_Y,
        r.stats.aggro_radius == 0,
        r.stats.attack_range == 0,
        r.stats.attack_rate == 0,
        r.stats.base_damage == 0,
        r.stats.cooldown == 0,
        r.stats.debris_despawn_timer == 0,
        r.stats.health == STARTING_HEALTH,
        r.stats.target_list@.len() == 0,
{
    Combatant { id, position: Point { x: STARTING_X, y: STARTING_Y }, stats: player_stats() }
}

/// Velocity of the player for the given intents: up wins over down, left over right.
pub fn player_controls(c: Controls) -> (v: Velocity)
    ensures
        v.y == (if c.up { SPEED as int } else if c.down { -SPEED } else { 0 }),
        v.x == (if c.left { -SPEED } else if c.right { SPEED as int } else { 0 }),
{
    let y = if c.up {
        SPEED
    } else if c.down {
        -SPEED
    } else {
        0
    };
    let x = if c.left {
        -SPEED
    } else if c.right {
        SPEED
    } else {
        0
    };
    Velocity { x, y }
}

impl SpawnKeyHeld {
    pub fn new() -> (r: SpawnKeyHeld)
        ensures
            r.duration == 0,
    {
        SpawnKeyHeld { duration: 0 }
    }

    /// One tick of the spawn key. While idle, holding the key adds the elapsed time, and
    /// once it has been held for `SPAWN_KEY_MS` a hexling is due and the key waits for its
    /// release; releasing it then starts over. Returns the next state and whether a
    /// hexling is due.
    pub fn step(&mut self, state: HexlingSpawnState, pressed: bool, released: bool, dt_ms: u64) -> (r: (
        HexlingSpawnState,
        bool,
    ))
        requires
            old(self).duration + dt_ms <= u64::MAX,
        ensures
            state == HexlingSpawnState::Idle && pressed ==> final(self).duration == old(self).duration + dt_ms
                && r.1 == (final(self).duration >= SPAWN_KEY_MS)
                && r.0 == (if r.1 { HexlingSpawnState::Spawning } else { HexlingSpawnState::Idle }),
            state == HexlingSpawnState::Idle && !pressed ==> *final(self) == *old(self) && r == (
                HexlingSpawnState::Idle,
                false,
            ),
            state == HexlingSpawnState::Spawning && released ==> final(self).duration == 0 && r == (
                HexlingSpawnState::Idle,
                false,
            ),
            state == HexlingSpawnState::Spawning && !released ==> *final(self) == *old(self) && r == (
                HexlingSpawnState::Spawning,
                false,
            ),
    {
        match state {
            HexlingSpawnState::Idle => {
                if pressed {
                    self.duration = self.duration + dt_ms;
                    if self.duration >= SPAWN_KEY_MS {
                        return (HexlingSpawnState::Spawning, true);
                    }
                }
                (HexlingSpawnState::Idle, false)
            },
            HexlingSpawnState::Spawning => {
                if released {
                    self.duration = 0;
                    (HexlingSpawnState::Idle, false)
                } else {
                    (HexlingSpawnState::Spawning, false)
                }
            },
        }
    }
}

/// The other mode.
pub open spec fn toggled(mode: HexlingState) -> HexlingState {
    match mode {
        HexlingState::Recalling => HexlingState::Charging,
        HexlingState::Charging => HexlingState::Recalling,
    }
}

/// A hexling's target list after a switch into `mode`: entering Recalling drops every
/// target, entering Charging keeps them.
pub open spec fn targets_on_entry(mode: HexlingState, list: Seq<u64>) -> Seq<u64> {
    match mode {
        HexlingState::Recalling => Seq::empty(),
        HexlingState::Charging => list,
    }
}

/// The mode after this tick's action key: a release flips the mode, otherwise it stays.
pub fn next_mode(mode: HexlingState, released: bool) -> (r: HexlingState)
    ensures
        r == (if released { toggled(mode) } else { mode }),
{
    if !released {
        return mode;
    }
    match mode {
        HexlingState::Recalling => HexlingState::Charging,
        HexlingState::Charging => HexlingState::Recalling,
    }
}

/// Switches a hexling out of `mode` into the other one, and returns the new mode.
pub fn switch_mode(mode: HexlingState, stats: &mut CombatStats) -> (r: HexlingState)
    ensures
        r == toggled(mode),
        same_but_targets(*final(stats), *old(stats)),
        final(stats).target_list@ == targets_on_entry(r, old(stats).target_list@),
{
    let r = next_mode(mode, true);
    match r {
        HexlingState::Recalling => stats.target_list.clear(),
        HexlingState::Charging => {},
    }
    r
}

/// Going from Recalling to Charging and back to Recalling ends with an empty target list,
/// whatever was acquired while charging, and each entry into Recalling empties the list.
pub proof fn recall_round_trip(before: Seq<u64>, acquired_meanwhile: Seq<u64>)
    ensures
        toggled(HexlingState::Recalling) == HexlingState::Charging,
        toggled(toggled(HexlingState::Recalling)) == HexlingState::Recalling,
        targets_on_entry(toggled(HexlingState::Recalling), before) == before,
        targets_on_entry(toggled(toggled(HexlingState::Recalling)), acquired_meanwhile).len() == 0,
        targets_on_entry(HexlingState::Recalling, Seq::<u64>::empty()).len() == 0,
{
}

} // verus!
