use vstd::prelude::*;

use crate::direction::Direction;
use crate::geometry::Rect;

verus! {

use vstd::arithmetic::mul::{
    lemma_mul_inequality, lemma_mul_is_distributive_add_other_way, lemma_mul_nonnegative,
};

/// The position and dimensions of an entity in world coordinates.
///
/// Assumes that the entity is positioned at the center of the bounding box.
#[derive(Clone, Copy, Debug, PartialEq, Eq, Structural)]
pub struct BoundingBox(pub Rect);

/// Allows an entity to move with the given speed in the given direction.
#[derive(Clone, Copy, Debug, PartialEq, Eq, Structural)]
pub struct Velocity {
    /// The speed of the entity's movement, in world units per second.
    /// A speed of zero means the entity is stationary regardless of its
    /// direction.
    pub speed: u32,
    /// The direction of the entity's movement.
    pub direction: Direction,
}

/// The sprite to render for a given entity.  The entity must also have a
/// `BoundingBox` component in order for it to be drawn on the screen.
#[derive(Clone, Copy, Debug, PartialEq, Eq, Structural)]
pub struct Sprite {
    /// The texture containing the spritesheet to copy sprites from.
    pub texture_id: usize,
    /// The region of the spritesheet to copy.
    pub region: Rect,
}

/// One frame of an animation: the sprite it shows and how long it is shown.
#[derive(Clone, Copy, Debug, PartialEq, Eq, Structural)]
pub struct Frame {
    /// The sprite to render for this frame.
    pub sprite: Sprite,
    /// The duration of the animation frame, in microseconds.  The next frame
    /// begins once this amount of time has elapsed.
    pub duration: u64,
}

/// A sequence of sprites that will be used to update an entity's `Sprite`
/// component.
pub struct Animation {
    /// Identity token of the frame sequence.  Change detection compares this
    /// token, never the frames element-wise: two structurally identical
    /// sequences built independently carry different tokens and so count as
    /// different.  This stands for comparing shared references to one
    /// immutable sequence, a deliberate performance-motivated shortcut.
    pub frames_token: u64,
    /// The frames of the animation and their individual timings.
    pub frames: Vec<Frame>,
    /// The current animation frame.
    pub current_frame: usize,
    /// Time, in microseconds of simulation time, at which the current frame
    /// started showing.
    pub frame_timer: u64,
}

/// Mathematical view of an [`Animation`].
#[verifier::ext_equal]
pub struct AnimationView {
    pub frames_token: u64,
    pub frames: Seq<Frame>,
    pub current_frame: usize,
    pub frame_timer: u64,
}

impl View for Animation {
    type V = AnimationView;

    open spec fn view(&self) -> AnimationView {
        AnimationView {
            frames_token: self.frames_token,
            frames: self.frames@,
            current_frame: self.current_frame,
            frame_timer: self.frame_timer,
        }
    }
}

impl AnimationView {
    /// A usable animation has at least one frame and its current frame index
    /// stays inside the sequence.
    pub open spec fn wf(self) -> bool {
        &&& self.frames.len() >= 1
        &&& self.current_frame < self.frames.len()
    }
}

impl Animation {
    /// An independent copy of this animation: same frames, same token, same
    /// progress.  The shared token keeps the copy identical to the original
    /// for change-detection purposes.
    pub fn duplicate(&self) -> (r: Animation)
        ensures
            r@ == self@,
    {
        let mut frames: Vec<Frame> = Vec::new();
        let mut i: usize = 0;
        while i < self.frames.len()
            invariant
                i <= self.frames.len(),
                frames@ =~= self.frames@.take(i as int),
            decreases self.frames.len() - i,
        {
            frames.push(self.frames[i]);
            i = i + 1;
        }
        proof {
            assert(frames@ =~= self.frames@);
        }
        Animation {
            frames_token: self.frames_token,
            frames,
            current_frame: self.current_frame,
            frame_timer: self.frame_timer,
        }
    }
}

/// Causes an entity's `Animation` component to be updated based on the
/// direction in its `Velocity` component.
pub struct MovementAnimations {
    /// The animation for when an entity is moving in the "up" direction.
    pub walking_up: Animation,
    /// The animation for when an entity is moving in the "down" direction.
    pub walking_down: Animation,
    /// The animation for when an entity is moving in the "left" direction.
    pub walking_left: Animation,
    /// The animation for when an entity is moving in the "right" direction.
    pub walking_right: Animation,
}

/// Mathematical view of a [`MovementAnimations`] table.
#[verifier::ext_equal]
pub struct MovementAnimationsView {
    pub walking_up: AnimationView,
    pub walking_down: AnimationView,
    pub walking_left: AnimationView,
    pub walking_right: AnimationView,
}

impl View for MovementAnimations {
    type V = MovementAnimationsView;

    open spec fn view(&self) -> MovementAnimationsView {
        MovementAnimationsView {
            walking_up: self.walking_up@,
            walking_down: self.walking_down@,
            walking_left: self.walking_left@,
            walking_right: self.walking_right@,
        }
    }
}

impl MovementAnimationsView {
    /// The template animation for the given movement direction.
    pub open spec fn spec_animation_for(self, direction: Direction) -> AnimationView {
        match direction {
            Direction::Up => self.walking_up,
            Direction::Down => self.walking_down,
            Direction::Left => self.walking_left,
            Direction::Right => self.walking_right,
        }
    }

    pub open spec fn wf(self) -> bool {
        &&& self.walking_up.wf()
        &&& self.walking_down.wf()
        &&& self.walking_left.wf()
        &&& self.walking_right.wf()
    }
}

/// The animation built from one spritesheet row under the standard
/// convention: `frames_length` frames of `top_left`'s size, laid out to the
/// right of `top_left`, `row` rows below it, each shown for `step_delay`
/// microseconds.  The animation starts on frame 0 with its frame timer at 0.
pub open spec fn spec_standard_animation(
    texture_id: usize,
    top_left: Rect,
    frames_length: usize,
    step_delay: u64,
    row: int,
    token: u64,
) -> AnimationView {
    AnimationView {
        frames_token: token,
        frames: Seq::new(
            frames_length as nat,
            |j: int| Frame {
                sprite: Sprite {
                    texture_id,
                    region: Rect {
                        x: (top_left.x + j * top_left.width) as i32,
                        y: (top_left.y + row * top_left.height) as i32,
                        width: top_left.width,
                        height: top_left.height,
                    },
                },
                duration: step_delay,
            },
        ),
        current_frame: 0,
        frame_timer: 0,
    }
}

impl MovementAnimations {
    /// Generates a set of movement animations based on the standard
    /// convention for spritesheets in this project.  Expects 4 rows of
    /// `frames_length` frames each with the animations ordered: walking down,
    /// walking left, walking right, walking up.
    ///
    /// The `top_left_frame` parameter provides the offset in the spritesheet
    /// as well as the width and height (in pixels) of each frame.  The
    /// `step_delay` is the duration of each frame in microseconds.  The four
    /// frame sequences receive the identity tokens `token_base` up to
    /// `token_base + 3`; callers hand in a fresh base so that independently
    /// built tables never share tokens.
    ///
    /// A zero frame count is a malformed spritesheet description and is
    /// rejected at this configuration boundary.
    pub fn standard_walking_animations(
        texture_id: usize,
        top_left_frame: Rect,
        frames_length: usize,
        step_delay: u64,
        token_base: u64,
    ) -> (r: MovementAnimations)
        requires
            frames_length >= 1,
            token_base <= u64::MAX - 3,
            top_left_frame.x + (frames_length - 1) * top_left_frame.width <= i32::MAX,
            top_left_frame.y + 3 * top_left_frame.height <= i32::MAX,
        ensures
            r@.walking_down == spec_standard_animation(
                texture_id, top_left_frame, frames_length, step_delay, 0, token_base),
            r@.walking_left == spec_standard_animation(
                texture_id, top_left_frame, frames_length, step_delay, 1, (token_base + 1) as u64),
            r@.walking_right == spec_standard_animation(
                texture_id, top_left_frame, frames_length, step_delay, 2, (token_base + 2) as u64),
            r@.walking_up == spec_standard_animation(
                texture_id, top_left_frame, frames_length, step_delay, 3, (token_base + 3) as u64),
            r@.wf(),
    {
        let walking_down = Self::standard_row(
            texture_id, top_left_frame, frames_length, step_delay, 0, token_base);
        let walking_left = Self::standard_row(
            texture_id, top_left_frame, frames_length, step_delay, 1, token_base + 1);
        let walking_right = Self::standard_row(
            texture_id, top_left_frame, frames_length, step_delay, 2, token_base + 2);
        let walking_up = Self::standard_row(
            texture_id, top_left_frame, frames_length, step_delay, 3, token_base + 3);
        MovementAnimations { walking_up, walking_down, walking_left, walking_right }
    }

    /// Builds the animation for one spritesheet row.
    fn standard_row(
        texture_id: usize,
        top_left: Rect,
        frames_length: usize,
        step_delay: u64,
        row: u32,
        token: u64,
    ) -> (r: Animation)
        requires
            frames_length >= 1,
            row <= 3,
            top_left.x + (frames_length - 1) * top_left.width <= i32::MAX,
            top_left.y + 3 * top_left.height <= i32::MAX,
        ensures
            r@ == spec_standard_animation(
                texture_id, top_left, frames_length, step_delay, row as int, token),
            r@.wf(),
    {
        let mut frames: Vec<Frame> = Vec::new();
        let ghost target = spec_standard_animation(
            texture_id, top_left, frames_length, step_delay, row as int, token);
        proof {
            lemma_mul_inequality(row as int, 3, top_left.height as int);
            lemma_mul_nonnegative(row as int, top_left.height as int);
        }
        let y64: i64 = top_left.y as i64 + row as i64 * top_left.height as i64;
        let y: i32 = y64 as i32;
        let mut xi: i64 = top_left.x as i64;
        let mut j: usize = 0;
        while j < frames_length
            invariant
                target == spec_standard_animation(
                    texture_id, top_left, frames_length, step_delay, row as int, token),
                j <= frames_length,
                frames.len() == j,
                forall|k: int| 0 <= k < j ==> frames@[k] == target.frames[k],
                y == top_left.y + row * top_left.height,
                xi == top_left.x + j * top_left.width,
                frames_length >= 1,
                top_left.x + (frames_length - 1) * top_left.width <= i32::MAX,
            decreases frames_length - j,
        {
            proof {
                lemma_mul_inequality(j as int, frames_length - 1, top_left.width as int);
                lemma_mul_nonnegative(j as int, top_left.width as int);
                lemma_mul_is_distributive_add_other_way(
                    top_left.width as int, j as int, 1);
            }
            let x: i32 = xi as i32;
            frames.push(Frame {
                sprite: Sprite {
                    texture_id,
                    region: Rect { x, y, width: top_left.width, height: top_left.height },
                },
                duration: step_delay,
            });
            xi = xi + top_left.width as i64;
            j = j + 1;
        }
        proof {
            assert(frames@ =~= target.frames);
        }
        Animation { frames_token: token, frames, current_frame: 0, frame_timer: 0 }
    }

    /// The template animation for the given movement direction.
    pub fn animation_for(&self, direction: Direction) -> (r: &Animation)
        ensures
            r@ == self@.spec_animation_for(direction),
    {
        match direction {
            Direction::Up => &self.walking_up,
            Direction::Down => &self.walking_down,
            Direction::Left => &self.walking_left,
            Direction::Right => &self.walking_right,
        }
    }
}

/// Marks an entity as the keyboard controlled player.
#[derive(Clone, Copy, Debug, PartialEq, Eq, Structural)]
pub struct Player {
    /// The speed of the player when they are moving, in world units per
    /// second.
    pub movement_speed: u32,
}

/// Marks an entity as an enemy that will cause damage to the player.
#[derive(Clone, Copy, Debug, PartialEq, Eq, Structural)]
pub struct Enemy {
    /// Time, in microseconds of simulation time, at which the direction was
    /// last chosen.
    pub direction_timer: u64,
    /// The amount of time to wait between direction changes, in microseconds.
    pub direction_change_delay: u64,
}

/// Marks an entity as the goal.  If the player reaches this, they win the
/// game.
#[derive(Clone, Copy, Debug, Default, PartialEq, Eq, Structural)]
pub struct Goal;

} // verus!
