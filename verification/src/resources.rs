use vstd::prelude::*;

use crate::direction::Direction;

verus! {

/// Wall-clock duration assumed to have elapsed this frame, in microseconds.
///
/// The driving loop fixes this at one sixtieth of a second; the core takes
/// whatever it is handed.
#[derive(Clone, Copy, Debug, PartialEq, Eq, Structural)]
pub struct TimeDelta(pub u64);

impl Default for TimeDelta {
    fn default() -> (r: TimeDelta)
        ensures
            r.0 == 0,
    {
        TimeDelta(0)
    }
}

/// The at most one logical input event delivered to the simulation per
/// frame.  It is replaced wholesale every frame, never accumulated.
#[derive(Clone, Copy, Debug, PartialEq, Eq, Structural)]
pub enum KeyboardEvent {
    /// Start moving the player in the given direction.
    MoveInDirection(Direction),
    /// Stop the player; its facing direction is left unchanged.
    Stop,
    /// Stop scheduling frames altogether.
    Escape,
}

/// Whether the game is still going, or has ended and how.  Once the status
/// leaves `Running` the driving loop stops advancing the simulation.
#[derive(Clone, Copy, Debug, PartialEq, Eq, Structural)]
pub enum GameStatus {
    Running,
    Win,
    Lose,
}

} // verus!
