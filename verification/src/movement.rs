use vstd::prelude::*;

use crate::components::{BoundingBox, Velocity};
use crate::direction::Direction;
use crate::geometry::Rect;
use crate::world::{EntityView, World};

verus! {

use vstd::arithmetic::div_mod::lemma_div_is_ordered;
use vstd::arithmetic::mul::{
    lemma_mul_inequality, lemma_mul_nonnegative, lemma_mul_upper_bound,
};

/// Integrates every moving entity's position over the frame's time delta.
#[derive(Clone, Copy)]
pub struct Movement {
    /// A configured world-bounds rectangle.  This is a declared but
    /// currently inert extension point: entities may leave the nominal world
    /// bounds unimpeded.
    pub world_bounds: Rect,
}

/// Displacement, in world units, travelled in `micros` microseconds at
/// `speed` units per second, with truncating integer arithmetic.  Products
/// under one whole unit are lost by design, not rounded.
pub open spec fn displacement(speed: u32, micros: u64) -> int {
    (speed * micros) / 1_000_000
}

/// Whether the movement system touches this entity: it is alive, it can
/// move, it has a position, and its speed is not zero.  Stationary entities
/// are skipped entirely, not moved by a zero distance.
pub open spec fn movement_applies(e: EntityView) -> bool {
    &&& e.alive
    &&& e.velocity is Some
    &&& e.bounding_box is Some
    &&& e.velocity->0.speed != 0
}

/// The bounding box re-centered at the old center plus the direction's unit
/// vector times the displacement; width and height are preserved.
pub open spec fn moved_box(b: BoundingBox, v: Velocity, micros: u64) -> BoundingBox {
    let d = displacement(v.speed, micros);
    let cx = b.0.spec_center_x() + v.direction.spec_dx() * d;
    let cy = b.0.spec_center_y() + v.direction.spec_dy() * d;
    BoundingBox(Rect::spec_from_center(cx, cy, b.0.width, b.0.height))
}

/// What the movement system does to one entity.
pub open spec fn movement_step(e: EntityView, micros: u64) -> EntityView {
    if movement_applies(e) {
        EntityView {
            bounding_box: Some(moved_box(e.bounding_box->0, e.velocity->0, micros)),
            ..e
        }
    } else {
        e
    }
}

/// The machine limits under which one movement step stays within `i32`
/// coordinates.  These bounds come from the word size alone; the rules of
/// the game put no limit on where an entity may be.
pub open spec fn movement_fits(e: EntityView, micros: u64) -> bool {
    movement_applies(e) ==> {
        let d = displacement(e.velocity->0.speed, micros);
        let bb = e.bounding_box->0;
        let b = bb.0;
        &&& d <= i32::MAX
        &&& b.spec_center_x() + d <= i32::MAX
        &&& b.spec_center_y() + d <= i32::MAX
        &&& i32::MIN + b.width / 2 <= b.spec_center_x() - d
        &&& i32::MIN + b.height / 2 <= b.spec_center_y() - d
    }
}

/// Displacement over an unbounded speed, for bounds that must cover any
/// speed an entity can reach during the frame.
pub open spec fn displacement_int(speed: int, micros: u64) -> int {
    (speed * micros) / 1_000_000
}

/// The largest speed the entity can hold once the input and steering systems
/// of the same frame have run: its current speed, or its configured player
/// movement speed.  Steering never touches the speed, and input only ever
/// sets it to the configured speed or to zero.
pub open spec fn potential_speed(e: EntityView) -> int {
    let s: int = if e.velocity is Some {
        e.velocity->0.speed as int
    } else {
        0
    };
    let m: int = if e.player is Some {
        e.player->0.movement_speed as int
    } else {
        0
    };
    if s >= m {
        s
    } else {
        m
    }
}

/// [`movement_fits`] with the displacement taken at the potential speed:
/// a bound that survives the same frame's velocity changes.
pub open spec fn movement_fits_potential(e: EntityView, micros: u64) -> bool {
    (e.alive && e.velocity is Some && e.bounding_box is Some) ==> {
        let d = displacement_int(potential_speed(e), micros);
        let bb = e.bounding_box->0;
        let b = bb.0;
        &&& d <= i32::MAX
        &&& b.spec_center_x() + d <= i32::MAX
        &&& b.spec_center_y() + d <= i32::MAX
        &&& i32::MIN + b.width / 2 <= b.spec_center_x() - d
        &&& i32::MIN + b.height / 2 <= b.spec_center_y() - d
    }
}

/// A bound at the potential speed covers the move at the actual speed.
pub proof fn lemma_fits_potential_implies_fits(e: EntityView, micros: u64)
    requires
        movement_fits_potential(e, micros),
    ensures
        movement_fits(e, micros),
{
    if movement_applies(e) {
        let s = e.velocity->0.speed as int;
        let p = potential_speed(e);
        lemma_mul_inequality(s, p, micros as int);
        lemma_div_is_ordered(s * micros, p * micros, 1_000_000);
        lemma_mul_nonnegative(s, micros as int);
        lemma_div_is_ordered(0, s * micros, 1_000_000);
    }
}

impl Movement {
    /// Runs the movement system once over the whole world, using the
    /// world's time-delta resource.
    pub fn run(&self, world: &mut World)
        requires
            forall|i: int| 0 <= i < old(world)@.entities.len()
                ==> movement_fits(#[trigger] old(world)@.entities[i], old(world)@.time_delta.0),
        ensures
            final(world)@.entities.len() == old(world)@.entities.len(),
            forall|i: int| 0 <= i < old(world)@.entities.len()
                ==> final(world)@.entities[i] == movement_step(
                    #[trigger] old(world)@.entities[i],
                    old(world)@.time_delta.0,
                ),
            final(world)@.same_resources(old(world)@),
    {
        let time_delta = world.time_delta();
        let micros = time_delta.0;
        let n = world.entity_count();
        let mut i: usize = 0;
        while i < n
            invariant
                n == old(world)@.entities.len(),
                world@.entities.len() == n,
                i <= n,
                micros == old(world)@.time_delta.0,
                forall|k: int| 0 <= k < i
                    ==> world@.entities[k] == movement_step(
                        #[trigger] old(world)@.entities[k],
                        micros,
                    ),
                forall|k: int| i <= k < n
                    ==> world@.entities[k] == #[trigger] old(world)@.entities[k],
                forall|k: int| 0 <= k < n
                    ==> movement_fits(#[trigger] old(world)@.entities[k], micros),
                world@.same_resources(old(world)@),
            decreases n - i,
        {
            proof {
                assert(world@.entities[i as int] == old(world)@.entities[i as int]);
                assert(movement_fits(old(world)@.entities[i as int], micros));
            }
            let alive = world.is_alive(i);
            let velocity = match world.get_velocity(i) {
                Some(v) => Some(*v),
                None => None,
            };
            let bounds = match world.get_bounding_box(i) {
                Some(b) => Some(*b),
                None => None,
            };
            if alive && velocity.is_some() && bounds.is_some() {
                let vel = velocity.unwrap();
                let b = bounds.unwrap();
                if vel.speed != 0 {
                    proof {
                        lemma_mul_upper_bound(
                            vel.speed as int,
                            u32::MAX as int,
                            micros as int,
                            u64::MAX as int,
                        );
                    }
                    let d128: u128 = vel.speed as u128 * micros as u128 / 1_000_000;
                    assert(d128 == displacement(vel.speed, micros));
                    let d: i32 = d128 as i32;
                    let center = b.0.center();
                    let new_cx = match vel.direction {
                        Direction::Left => center.x - d,
                        Direction::Right => center.x + d,
                        _ => center.x,
                    };
                    let new_cy = match vel.direction {
                        Direction::Up => center.y - d,
                        Direction::Down => center.y + d,
                        _ => center.y,
                    };
                    let new_bounds = Rect::from_center(new_cx, new_cy, b.0.width, b.0.height);
                    world.insert_bounding_box(i, BoundingBox(new_bounds));
                }
            }
            i = i + 1;
        }
    }
}

} // verus!
