use vstd::prelude::*;

use crate::components::Velocity;
use crate::resources::KeyboardEvent;
use crate::world::{EntityView, World};

verus! {

/// Translates the frame's pending input event into a velocity change of
/// every player-controlled entity.
pub struct Keyboard;

/// What the keyboard system does to one entity.  Only entities that are
/// alive and hold both `Player` and `Velocity` are affected: a direction
/// event sets their full configured speed in that direction, a stop event
/// zeroes the speed and keeps the direction, anything else leaves the
/// velocity untouched.
pub open spec fn keyboard_step(e: EntityView, event: Option<KeyboardEvent>) -> EntityView {
    if e.alive && e.player is Some && e.velocity is Some {
        match event {
            Some(KeyboardEvent::MoveInDirection(direction)) => EntityView {
                velocity: Some(
                    Velocity { speed: e.player->0.movement_speed, direction },
                ),
                ..e
            },
            Some(KeyboardEvent::Stop) => EntityView {
                velocity: Some(
                    Velocity { speed: 0, direction: e.velocity->0.direction },
                ),
                ..e
            },
            _ => e,
        }
    } else {
        e
    }
}

impl Keyboard {
    /// Runs the keyboard system once over the whole world.
    pub fn run(world: &mut World)
        ensures
            final(world)@.entities.len() == old(world)@.entities.len(),
            forall|i: int| 0 <= i < old(world)@.entities.len()
                ==> final(world)@.entities[i] == keyboard_step(
                    #[trigger] old(world)@.entities[i],
                    old(world)@.keyboard_event,
                ),
            final(world)@.same_resources(old(world)@),
    {
        let event = world.keyboard_event();
        let n = world.entity_count();
        let mut i: usize = 0;
        while i < n
            invariant
                n == old(world)@.entities.len(),
                world@.entities.len() == n,
                i <= n,
                event == old(world)@.keyboard_event,
                forall|k: int| 0 <= k < i
                    ==> world@.entities[k] == keyboard_step(
                        #[trigger] old(world)@.entities[k],
                        old(world)@.keyboard_event,
                    ),
                forall|k: int| i <= k < n
                    ==> world@.entities[k] == #[trigger] old(world)@.entities[k],
                world@.same_resources(old(world)@),
            decreases n - i,
        {
            let alive = world.is_alive(i);
            let player = match world.get_player(i) {
                Some(p) => Some(*p),
                None => None,
            };
            let velocity = match world.get_velocity(i) {
                Some(v) => Some(*v),
                None => None,
            };
            if alive && player.is_some() && velocity.is_some() {
                match event {
                    Some(KeyboardEvent::MoveInDirection(direction)) => {
                        world.insert_velocity(
                            i,
                            Velocity { speed: player.unwrap().movement_speed, direction },
                        );
                    }
                    Some(KeyboardEvent::Stop) => {
                        world.insert_velocity(
                            i,
                            Velocity { speed: 0, direction: velocity.unwrap().direction },
                        );
                    }
                    _ => {}
                }
            }
            i = i + 1;
        }
    }
}

} // verus!
