use vstd::prelude::*;

use crate::components::AnimationView;
use crate::world::{EntityView, World};

verus! {

/// Keeps every entity's active animation in step with its velocity and
/// advances animation frames as their durations elapse.
pub struct Animator;

/// The retargeting pass on one entity, which concerns alive entities
/// holding both `Velocity` and `MovementAnimations`:
///
/// * a stationary entity holds no active animation: one that reached zero
///   speed while an animation is present loses it, and one that is already
///   animation-free stays untouched, so a standing entity never flickers;
/// * a moving entity whose active animation is missing, or whose frame
///   sequence is not identical — by identity token, never element-wise — to
///   the template for the current direction, has the animation replaced
///   wholesale by a fresh copy of that template: frame index 0 and frame
///   timer `now`, and its sprite, if it has one, already shows that
///   template's first frame.
pub open spec fn retarget_step(e: EntityView, now: u64) -> EntityView {
    if e.alive && e.velocity is Some && e.movement_animations is Some {
        let v = e.velocity->0;
        if v.speed == 0 {
            if e.animation is Some {
                EntityView { animation: None, ..e }
            } else {
                e
            }
        } else {
            let template = e.movement_animations->0.spec_animation_for(v.direction);
            let needs_update = match e.animation {
                Some(a) => a.frames_token != template.frames_token,
                None => true,
            };
            if needs_update {
                EntityView {
                    animation: Some(
                        AnimationView {
                            frames_token: template.frames_token,
                            frames: template.frames,
                            current_frame: 0,
                            frame_timer: now,
                        },
                    ),
                    sprite: if e.sprite is Some {
                        Some(template.frames[0].sprite)
                    } else {
                        None
                    },
                    ..e
                }
            } else {
                e
            }
        }
    } else {
        e
    }
}

/// The frame-advance pass on one entity, which concerns alive entities
/// holding both `Animation` and `Sprite`: once the time elapsed since the
/// frame timer was set reaches the current frame's duration, the frame index
/// advances by one modulo the sequence length, the timer resets to `now`,
/// and the sprite is overwritten with the new frame's sprite.  At most one
/// frame advances per pass, with no catch-up for long stalls.
pub open spec fn advance_step(e: EntityView, now: u64) -> EntityView {
    if e.alive && e.animation is Some && e.sprite is Some {
        let a = e.animation->0;
        if now - a.frame_timer >= a.frames[a.current_frame as int].duration {
            let next = ((a.current_frame + 1) % (a.frames.len() as int)) as usize;
            EntityView {
                animation: Some(
                    AnimationView { current_frame: next, frame_timer: now, ..a },
                ),
                sprite: Some(a.frames[next as int].sprite),
                ..e
            }
        } else {
            e
        }
    } else {
        e
    }
}

/// What one animator run does to one entity: retargeting, then at most one
/// frame advance on the result.
pub open spec fn animator_step(e: EntityView, now: u64) -> EntityView {
    advance_step(retarget_step(e, now), now)
}

/// The entity's active animation timer never lies in the future.
pub open spec fn animation_timer_le(e: EntityView, now: u64) -> bool {
    e.animation matches Some(a) ==> a.frame_timer <= now
}

impl Animator {
    /// Runs the animator system once over the whole world at time `now`
    /// (microseconds of simulation time).
    pub fn run(world: &mut World, now: u64)
        requires
            old(world)@.wf(),
            forall|i: int| 0 <= i < old(world)@.entities.len()
                ==> animation_timer_le(#[trigger] old(world)@.entities[i], now),
        ensures
            final(world)@.entities.len() == old(world)@.entities.len(),
            forall|i: int| 0 <= i < old(world)@.entities.len()
                ==> final(world)@.entities[i]
                    == animator_step(#[trigger] old(world)@.entities[i], now),
            final(world)@.same_resources(old(world)@),
            final(world)@.wf(),
    {
        let n = world.entity_count();
        let mut i: usize = 0;
        while i < n
            invariant
                n == old(world)@.entities.len(),
                world@.entities.len() == n,
                i <= n,
                forall|k: int| 0 <= k < i
                    ==> world@.entities[k]
                        == animator_step(#[trigger] old(world)@.entities[k], now),
                forall|k: int| i <= k < n
                    ==> world@.entities[k] == #[trigger] old(world)@.entities[k],
                forall|k: int| 0 <= k < n
                    ==> (#[trigger] old(world)@.entities[k]).wf(),
                forall|k: int| 0 <= k < n
                    ==> animation_timer_le(#[trigger] old(world)@.entities[k], now),
                world@.wf(),
                world@.same_resources(old(world)@),
            decreases n - i,
        {
            let ghost e0 = world@.entities[i as int];
            proof {
                assert(e0 == old(world)@.entities[i as int]);
                assert(animation_timer_le(old(world)@.entities[i as int], now));
                assert(e0.wf());
            }
            let alive = world.is_alive(i);
            let velocity = match world.get_velocity(i) {
                Some(v) => Some(*v),
                None => None,
            };
            let has_movement_animations = world.get_movement_animations(i).is_some();
            // Retargeting pass.
            if alive && velocity.is_some() && has_movement_animations {
                let vel = velocity.unwrap();
                if vel.speed == 0 {
                    if world.get_animation(i).is_some() {
                        world.remove_animation(i);
                    }
                } else {
                    let needs_update = match world.get_animation(i) {
                        Some(a) => {
                            let ma = world.get_movement_animations(i).unwrap();
                            a.frames_token != ma.animation_for(vel.direction).frames_token
                        }
                        None => true,
                    };
                    if needs_update {
                        let fresh = {
                            let ma = world.get_movement_animations(i).unwrap();
                            let mut a = ma.animation_for(vel.direction).duplicate();
                            a.current_frame = 0;
                            a.frame_timer = now;
                            a
                        };
                        let first_frame = fresh.frames[0].sprite;
                        world.insert_animation(i, fresh);
                        if world.get_sprite(i).is_some() {
                            world.insert_sprite(i, first_frame);
                        }
                    }
                }
            }
            proof {
                assert(world@.entities[i as int] =~= retarget_step(e0, now));
                assert(animation_timer_le(world@.entities[i as int], now));
                assert(world@.entities[i as int].wf());
            }
            // Frame-advance pass.
            let has_sprite = world.get_sprite(i).is_some();
            let advanced = if alive && has_sprite {
                match world.get_animation(i) {
                    Some(a) => {
                        proof {
                            assert(world@.entities[i as int].wf());
                            assert(a@.wf());
                        }
                        if now - a.frame_timer >= a.frames[a.current_frame].duration {
                            let len = a.frames.len();
                            assert(a.current_frame < len);
                            let next = (a.current_frame + 1) % len;
                            let mut b = a.duplicate();
                            b.current_frame = next;
                            b.frame_timer = now;
                            let sprite = b.frames[next].sprite;
                            Some((b, sprite))
                        } else {
                            None
                        }
                    }
                    None => None,
                }
            } else {
                None
            };
            match advanced {
                Some((b, sprite)) => {
                    world.insert_animation(i, b);
                    world.insert_sprite(i, sprite);
                }
                None => {}
            }
            proof {
                assert(world@.entities[i as int] =~= animator_step(e0, now));
            }
            i = i + 1;
        }
    }
}

} // verus!
