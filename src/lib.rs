//! Combat and collision core of a top-down arcade game in which the player flings and
//! recalls a cloud of small minions ("hexlings") against enemies: overlap detection and
//! the response to walls, target acquisition and priority, steering, attacks and deaths.
//!
//! Positions are integers in thousandths of a world unit, times in milliseconds and
//! health in tenths of a hit point. Steering is returned as a heading (a direction and a
//! speed); turning it into a velocity is left to the caller.
use vstd::prelude::*;

pub mod collision;
pub mod combat;
pub mod enemy;
pub mod geometry;
pub mod hexling;
pub mod player;
pub mod systems;

verus! {

/// The overall mode of the game; combat runs only while `Playing`.
#[derive(Clone, Copy, Debug, PartialEq, Eq, Hash, Structural)]
pub enum GameState {
    Menu,
    Over,
    Paused,
    Playing,
}

/// The level being played.
#[derive(Clone, Copy, Debug, PartialEq, Eq, Hash, Structural)]
pub enum LevelState {
    One,
    Two,
}

/// Sum of two sizes.
pub fn add(left: usize, right: usize) -> (r: usize)
    requires
        left + right <= usize::MAX,
    ensures
        r == left + right,
{
    left + right
}

} // verus!
