use vstd::prelude::*;

use crate::components::{Enemy, Velocity};
use crate::direction::Direction;
use crate::rng::random_in_range;
use crate::world::{EntityView, World};

verus! {

/// Re-decides the movement direction of every autonomous enemy whose
/// per-entity delay has elapsed.
pub struct AI;

/// The direction chosen by one uniform draw from 1 to 100: draws up to 60
/// keep the current direction, and each later block of ten picks one fixed
/// direction.  The delay therefore lapses into 60% persistence and a uniform
/// 10% chance per alternative, the current direction included.
pub open spec fn spec_resolve_direction(current: Direction, draw: u8) -> Direction {
    if draw <= 60 {
        current
    } else if draw <= 70 {
        Direction::Up
    } else if draw <= 80 {
        Direction::Down
    } else if draw <= 90 {
        Direction::Left
    } else {
        Direction::Right
    }
}

/// Resolves one direction draw; see [`spec_resolve_direction`].
pub fn resolve_direction(current: Direction, draw: u8) -> (r: Direction)
    requires
        1 <= draw <= 100,
    ensures
        r == spec_resolve_direction(current, draw),
{
    if draw <= 60 {
        current
    } else if draw <= 70 {
        Direction::Up
    } else if draw <= 80 {
        Direction::Down
    } else if draw <= 90 {
        Direction::Left
    } else {
        Direction::Right
    }
}

/// Whether the AI system re-decides this entity's direction at time `now`:
/// the entity is an alive enemy with a velocity whose direction timer has
/// accumulated at least its configured delay.
pub open spec fn ai_applies(e: EntityView, now: u64) -> bool {
    &&& e.alive
    &&& e.enemy is Some
    &&& e.velocity is Some
    &&& now - e.enemy->0.direction_timer >= e.enemy->0.direction_change_delay
}

/// What the AI system does to one entity given the draw it consumed: an
/// elapsed timer resolves the draw into a (possibly unchanged) direction and
/// resets the timer to `now`; otherwise nothing changes, the timer included.
/// The speed is never modified.
pub open spec fn ai_step(e: EntityView, draw: u8, now: u64) -> EntityView {
    if ai_applies(e, now) {
        EntityView {
            velocity: Some(
                Velocity {
                    speed: e.velocity->0.speed,
                    direction: spec_resolve_direction(e.velocity->0.direction, draw),
                },
            ),
            enemy: Some(
                Enemy {
                    direction_timer: now,
                    direction_change_delay: e.enemy->0.direction_change_delay,
                },
            ),
            ..e
        }
    } else {
        e
    }
}

/// The enemy's direction timer never lies in the future.
pub open spec fn enemy_timer_le(e: EntityView, now: u64) -> bool {
    e.enemy matches Some(en) ==> en.direction_timer <= now
}

/// Relates the entities before and after one AI run: some sequence of
/// uniform draws from 1 to 100, one per entity, produced the outcome.
pub open spec fn ai_outcome(
    pre: Seq<EntityView>,
    post: Seq<EntityView>,
    draws: Seq<u8>,
    now: u64,
) -> bool {
    &&& draws.len() == pre.len()
    &&& (forall|k: int| 0 <= k < draws.len() ==> 1 <= #[trigger] draws[k] <= 100)
    &&& post.len() == pre.len()
    &&& (forall|k: int| 0 <= k < pre.len()
        ==> post[k] == ai_step(#[trigger] pre[k], draws[k], now))
}

impl AI {
    /// Runs the AI system once over the whole world at time `now`
    /// (microseconds of simulation time).
    ///
    /// The draws come from a thread-local random generator, so the contract
    /// promises only that the outcome is explained by some valid draw per
    /// entity; [`ai_step`] pins down the world for every value of the draw.
    pub fn run(world: &mut World, now: u64)
        requires
            forall|i: int| 0 <= i < old(world)@.entities.len()
                ==> enemy_timer_le(#[trigger] old(world)@.entities[i], now),
        ensures
            final(world)@.entities.len() == old(world)@.entities.len(),
            exists|draws: Seq<u8>| ai_outcome(
                old(world)@.entities,
                final(world)@.entities,
                draws,
                now,
            ),
            final(world)@.same_resources(old(world)@),
    {
        let n = world.entity_count();
        let ghost mut draws: Seq<u8> = Seq::empty();
        let mut i: usize = 0;
        while i < n
            invariant
                n == old(world)@.entities.len(),
                world@.entities.len() == n,
                i <= n,
                draws.len() == i,
                forall|k: int| 0 <= k < i ==> 1 <= #[trigger] draws[k] <= 100,
                forall|k: int| 0 <= k < i
                    ==> world@.entities[k] == ai_step(
                        #[trigger] old(world)@.entities[k],
                        draws[k],
                        now,
                    ),
                forall|k: int| i <= k < n
                    ==> world@.entities[k] == #[trigger] old(world)@.entities[k],
                forall|k: int| 0 <= k < n
                    ==> enemy_timer_le(#[trigger] old(world)@.entities[k], now),
                world@.same_resources(old(world)@),
            decreases n - i,
        {
            proof {
                assert(world@.entities[i as int] == old(world)@.entities[i as int]);
                assert(enemy_timer_le(old(world)@.entities[i as int], now));
            }
            let alive = world.is_alive(i);
            let enemy = match world.get_enemy(i) {
                Some(en) => Some(*en),
                None => None,
            };
            let velocity = match world.get_velocity(i) {
                Some(v) => Some(*v),
                None => None,
            };
            let mut drawn: u8 = 1;
            if alive && enemy.is_some() && velocity.is_some() {
                let en = enemy.unwrap();
                let vel = velocity.unwrap();
                if now - en.direction_timer >= en.direction_change_delay {
                    let draw = random_in_range(1, 101) as u8;
                    drawn = draw;
                    let direction = resolve_direction(vel.direction, draw);
                    world.insert_velocity(i, Velocity { speed: vel.speed, direction });
                    world.insert_enemy(
                        i,
                        Enemy {
                            direction_timer: now,
                            direction_change_delay: en.direction_change_delay,
                        },
                    );
                }
            }
            proof {
                draws = draws.push(drawn);
            }
            i = i + 1;
        }
        proof {
            assert(ai_outcome(old(world)@.entities, world@.entities, draws, now));
        }
    }
}

} // verus!
