use vstd::prelude::*;

use crate::components::{
    Animation, AnimationView, BoundingBox, Enemy, Goal, MovementAnimations,
    MovementAnimationsView, Player, Sprite, Velocity,
};
use crate::resources::{GameStatus, KeyboardEvent, TimeDelta};

verus! {

/// All component slots of one entity, together with its liveness flags.
///
/// Each entity holds zero or one instance of each component kind; absence is
/// meaningful, not an error.
pub struct EntityRecord {
    /// Whether the entity currently exists.  Destruction is deferred: an
    /// entity marked for removal stays alive, and fully readable, until the
    /// per-frame maintenance point.
    pub alive: bool,
    /// Whether the entity has been marked for removal at the next
    /// maintenance point.
    pub doomed: bool,
    pub bounding_box: Option<BoundingBox>,
    pub velocity: Option<Velocity>,
    pub sprite: Option<Sprite>,
    pub animation: Option<Animation>,
    pub movement_animations: Option<MovementAnimations>,
    pub player: Option<Player>,
    pub enemy: Option<Enemy>,
    pub goal: Option<Goal>,
}

/// Mathematical view of an [`EntityRecord`].
#[verifier::ext_equal]
pub struct EntityView {
    pub alive: bool,
    pub doomed: bool,
    pub bounding_box: Option<BoundingBox>,
    pub velocity: Option<Velocity>,
    pub sprite: Option<Sprite>,
    pub animation: Option<AnimationView>,
    pub movement_animations: Option<MovementAnimationsView>,
    pub player: Option<Player>,
    pub enemy: Option<Enemy>,
    pub goal: Option<Goal>,
}

impl View for EntityRecord {
    type V = EntityView;

    open spec fn view(&self) -> EntityView {
        EntityView {
            alive: self.alive,
            doomed: self.doomed,
            bounding_box: self.bounding_box,
            velocity: self.velocity,
            sprite: self.sprite,
            animation: match self.animation {
                Some(ref a) => Some(a@),
                None => None,
            },
            movement_animations: match self.movement_animations {
                Some(ref m) => Some(m@),
                None => None,
            },
            player: self.player,
            enemy: self.enemy,
            goal: self.goal,
        }
    }
}

impl EntityView {
    /// Every animation the entity carries, active or template, is usable.
    pub open spec fn wf(self) -> bool {
        &&& (self.animation matches Some(a) ==> a.wf())
        &&& (self.movement_animations matches Some(m) ==> m.wf())
    }

    /// A freshly created entity: alive, not marked, and holding no
    /// components.
    pub open spec fn empty() -> EntityView {
        EntityView {
            alive: true,
            doomed: false,
            bounding_box: None,
            velocity: None,
            sprite: None,
            animation: None,
            movement_animations: None,
            player: None,
            enemy: None,
            goal: None,
        }
    }

    /// A purged entity: dead, unmarked, and stripped of every component.
    pub open spec fn purged() -> EntityView {
        EntityView { alive: false, ..EntityView::empty() }
    }
}

/// What the per-frame maintenance point does to one entity: an entity marked
/// for removal is purged wholesale, any other is left untouched.
pub open spec fn maintain_step(e: EntityView) -> EntityView {
    if e.doomed {
        EntityView::purged()
    } else {
        e
    }
}

/// The component store, entity registry and resource table in one place:
/// everything a system may read or write during a frame.
pub struct World {
    pub(crate) entities: Vec<EntityRecord>,
    pub(crate) time_delta: TimeDelta,
    pub(crate) keyboard_event: Option<KeyboardEvent>,
    pub(crate) game_status: GameStatus,
    pub(crate) next_token: u64,
}

/// Mathematical view of a [`World`].
#[verifier::ext_equal]
pub struct WorldView {
    pub entities: Seq<EntityView>,
    pub time_delta: TimeDelta,
    pub keyboard_event: Option<KeyboardEvent>,
    pub game_status: GameStatus,
    pub next_token: u64,
}

impl View for World {
    type V = WorldView;

    closed spec fn view(&self) -> WorldView {
        WorldView {
            entities: self.entities@.map_values(|r: EntityRecord| r@),
            time_delta: self.time_delta,
            keyboard_event: self.keyboard_event,
            game_status: self.game_status,
            next_token: self.next_token,
        }
    }
}

impl WorldView {
    /// Every entity of the world is well formed.
    pub open spec fn wf(self) -> bool {
        forall|i: int| 0 <= i < self.entities.len() ==> (#[trigger] self.entities[i]).wf()
    }

    /// True when the two views agree on everything but the entities.
    pub open spec fn same_resources(self, other: WorldView) -> bool {
        &&& self.time_delta == other.time_delta
        &&& self.keyboard_event == other.keyboard_event
        &&& self.game_status == other.game_status
        &&& self.next_token == other.next_token
    }
}

impl World {
    /// An empty world: no entities, a zero time delta, no pending input
    /// event, and the game still running.
    pub fn new() -> (w: World)
        ensures
            w@.entities.len() == 0,
            w@.time_delta.0 == 0,
            w@.keyboard_event is None,
            w@.game_status == GameStatus::Running,
            w@.next_token == 0,
            w@.wf(),
    {
        World {
            entities: Vec::new(),
            time_delta: TimeDelta(0),
            keyboard_event: None,
            game_status: GameStatus::Running,
            next_token: 0,
        }
    }

    /// The number of entity slots ever allocated; identifiers are indices
    /// below this count and are never reused.
    pub fn entity_count(&self) -> (n: usize)
        ensures
            n == self@.entities.len(),
    {
        self.entities.len()
    }

    /// Allocates a fresh entity identifier.  The new entity is alive and
    /// holds no components until some are attached to it.
    pub fn create_entity(&mut self) -> (entity: usize)
        requires
            old(self)@.entities.len() < usize::MAX,
        ensures
            entity == old(self)@.entities.len(),
            final(self)@.entities =~= old(self)@.entities.push(EntityView::empty()),
            final(self)@.same_resources(old(self)@),
    {
        let entity = self.entities.len();
        self.entities.push(EntityRecord {
            alive: true,
            doomed: false,
            bounding_box: None,
            velocity: None,
            sprite: None,
            animation: None,
            movement_animations: None,
            player: None,
            enemy: None,
            goal: None,
        });
        proof {
            assert(self@.entities =~= old(self)@.entities.push(EntityView::empty()));
        }
        entity
    }

    /// Marks an entity for removal.  Nothing is removed yet: the entity and
    /// all its components stay fully readable until [`World::maintain`] runs.
    pub fn destroy(&mut self, entity: usize)
        requires
            entity < old(self)@.entities.len(),
        ensures
            final(self)@.entities =~= old(self)@.entities.update(
                entity as int,
                EntityView { doomed: true, ..old(self)@.entities[entity as int] },
            ),
            final(self)@.same_resources(old(self)@),
    {
        let r = &mut self.entities[entity];
        r.doomed = true;
        proof {
            assert(self@.entities =~= old(self)@.entities.update(
                entity as int,
                EntityView { doomed: true, ..old(self)@.entities[entity as int] },
            ));
        }
    }

    /// The per-frame maintenance point: every entity marked for removal is
    /// purged — it stops being alive and loses all its components — and every
    /// other entity is left exactly as it was.
    pub fn maintain(&mut self)
        ensures
            final(self)@.entities.len() == old(self)@.entities.len(),
            forall|i: int| 0 <= i < old(self)@.entities.len()
                ==> final(self)@.entities[i] == maintain_step(#[trigger] old(self)@.entities[i]),
            final(self)@.same_resources(old(self)@),
    {
        let n = self.entities.len();
        let mut i: usize = 0;
        while i < n
            invariant
                n == self.entities.len(),
                i <= n,
                forall|k: int| 0 <= k < i
                    ==> self@.entities[k] == maintain_step(#[trigger] old(self)@.entities[k]),
                forall|k: int| i <= k < n
                    ==> self@.entities[k] == #[trigger] old(self)@.entities[k],
                self@.same_resources(old(self)@),
            decreases n - i,
        {
            if self.entities[i].doomed {
                let r = &mut self.entities[i];
                r.alive = false;
                r.doomed = false;
                r.bounding_box = None;
                r.velocity = None;
                r.sprite = None;
                r.animation = None;
                r.movement_animations = None;
                r.player = None;
                r.enemy = None;
                r.goal = None;
                proof {
                    assert(self@.entities[i as int] =~= EntityView::purged());
                }
            }
            i = i + 1;
        }
    }

    /// Hands out a block of four fresh animation identity tokens and returns
    /// the first of them.
    pub fn fresh_animation_tokens(&mut self) -> (base: u64)
        requires
            old(self)@.next_token <= u64::MAX - 4,
        ensures
            base == old(self)@.next_token,
            final(self)@.next_token == old(self)@.next_token + 4,
            final(self)@.entities == old(self)@.entities,
            final(self)@.time_delta == old(self)@.time_delta,
            final(self)@.keyboard_event == old(self)@.keyboard_event,
            final(self)@.game_status == old(self)@.game_status,
    {
        let base = self.next_token;
        self.next_token = self.next_token + 4;
        base
    }

    /// Replaces the per-frame time delta resource.
    pub fn set_time_delta(&mut self, time_delta: TimeDelta)
        ensures
            final(self)@ == (WorldView { time_delta, ..old(self)@ }),
    {
        self.time_delta = time_delta;
    }

    /// The per-frame time delta resource.
    pub fn time_delta(&self) -> (r: TimeDelta)
        ensures
            r == self@.time_delta,
    {
        self.time_delta
    }

    /// Replaces the pending input event; `None` clears it.  Events are never
    /// accumulated across frames.
    pub fn set_keyboard_event(&mut self, event: Option<KeyboardEvent>)
        ensures
            final(self)@ == (WorldView { keyboard_event: event, ..old(self)@ }),
    {
        self.keyboard_event = event;
    }

    /// The at most one input event pending for this frame.
    pub fn keyboard_event(&self) -> (r: Option<KeyboardEvent>)
        ensures
            r == self@.keyboard_event,
    {
        self.keyboard_event
    }

    /// Replaces the game status resource.
    pub fn set_game_status(&mut self, status: GameStatus)
        ensures
            final(self)@ == (WorldView { game_status: status, ..old(self)@ }),
    {
        self.game_status = status;
    }

    /// The current game status.
    pub fn game_status(&self) -> (r: GameStatus)
        ensures
            r == self@.game_status,
    {
        self.game_status
    }

    /// Whether the entity is currently alive (an entity marked for deferred
    /// removal still is).
    pub fn is_alive(&self, entity: usize) -> (r: bool)
        requires
            entity < self@.entities.len(),
        ensures
            r == self@.entities[entity as int].alive,
    {
        self.entities[entity].alive
    }
}

/// Attaching, reading and removing single components.  Each insert
/// overwrites a present instance; each get leaves the world untouched.
impl World {
    pub fn insert_bounding_box(&mut self, entity: usize, component: BoundingBox)
        requires
            entity < old(self)@.entities.len(),
        ensures
            final(self)@.entities =~= old(self)@.entities.update(
                entity as int,
                EntityView { bounding_box: Some(component), ..old(self)@.entities[entity as int] },
            ),
            final(self)@.same_resources(old(self)@),
    {
        let r = &mut self.entities[entity];
        r.bounding_box = Some(component);
        proof {
            assert(self@.entities =~= old(self)@.entities.update(
                entity as int,
                EntityView { bounding_box: Some(component), ..old(self)@.entities[entity as int] },
            ));
        }
    }

    pub fn insert_velocity(&mut self, entity: usize, component: Velocity)
        requires
            entity < old(self)@.entities.len(),
        ensures
            final(self)@.entities =~= old(self)@.entities.update(
                entity as int,
                EntityView { velocity: Some(component), ..old(self)@.entities[entity as int] },
            ),
            final(self)@.same_resources(old(self)@),
    {
        let r = &mut self.entities[entity];
        r.velocity = Some(component);
        proof {
            assert(self@.entities =~= old(self)@.entities.update(
                entity as int,
                EntityView { velocity: Some(component), ..old(self)@.entities[entity as int] },
            ));
        }
    }

    pub fn insert_sprite(&mut self, entity: usize, component: Sprite)
        requires
            entity < old(self)@.entities.len(),
        ensures
            final(self)@.entities =~= old(self)@.entities.update(
                entity as int,
                EntityView { sprite: Some(component), ..old(self)@.entities[entity as int] },
            ),
            final(self)@.same_resources(old(self)@),
    {
        let r = &mut self.entities[entity];
        r.sprite = Some(component);
        proof {
            assert(self@.entities =~= old(self)@.entities.update(
                entity as int,
                EntityView { sprite: Some(component), ..old(self)@.entities[entity as int] },
            ));
        }
    }

    pub fn insert_animation(&mut self, entity: usize, component: Animation)
        requires
            entity < old(self)@.entities.len(),
        ensures
            final(self)@.entities =~= old(self)@.entities.update(
                entity as int,
                EntityView { animation: Some(component@), ..old(self)@.entities[entity as int] },
            ),
            final(self)@.same_resources(old(self)@),
    {
        let ghost v = component@;
        let r = &mut self.entities[entity];
        r.animation = Some(component);
        proof {
            assert(self@.entities =~= old(self)@.entities.update(
                entity as int,
                EntityView { animation: Some(v), ..old(self)@.entities[entity as int] },
            ));
        }
    }

    pub fn insert_movement_animations(&mut self, entity: usize, component: MovementAnimations)
        requires
            entity < old(self)@.entities.len(),
        ensures
            final(self)@.entities =~= old(self)@.entities.update(
                entity as int,
                EntityView {
                    movement_animations: Some(component@),
                    ..old(self)@.entities[entity as int]
                },
            ),
            final(self)@.same_resources(old(self)@),
    {
        let ghost v = component@;
        let r = &mut self.entities[entity];
        r.movement_animations = Some(component);
        proof {
            assert(self@.entities =~= old(self)@.entities.update(
                entity as int,
                EntityView { movement_animations: Some(v), ..old(self)@.entities[entity as int] },
            ));
        }
    }

    pub fn insert_player(&mut self, entity: usize, component: Player)
        requires
            entity < old(self)@.entities.len(),
        ensures
            final(self)@.entities =~= old(self)@.entities.update(
                entity as int,
                EntityView { player: Some(component), ..old(self)@.entities[entity as int] },
            ),
            final(self)@.same_resources(old(self)@),
    {
        let r = &mut self.entities[entity];
        r.player = Some(component);
        proof {
            assert(self@.entities =~= old(self)@.entities.update(
                entity as int,
                EntityView { player: Some(component), ..old(self)@.entities[entity as int] },
            ));
        }
    }

    pub fn insert_enemy(&mut self, entity: usize, component: Enemy)
        requires
            entity < old(self)@.entities.len(),
        ensures
            final(self)@.entities =~= old(self)@.entities.update(
                entity as int,
                EntityView { enemy: Some(component), ..old(self)@.entities[entity as int] },
            ),
            final(self)@.same_resources(old(self)@),
    {
        let r = &mut self.entities[entity];
        r.enemy = Some(component);
        proof {
            assert(self@.entities =~= old(self)@.entities.update(
                entity as int,
                EntityView { enemy: Some(component), ..old(self)@.entities[entity as int] },
            ));
        }
    }

    pub fn insert_goal(&mut self, entity: usize, component: Goal)
        requires
            entity < old(self)@.entities.len(),
        ensures
            final(self)@.entities =~= old(self)@.entities.update(
                entity as int,
                EntityView { goal: Some(component), ..old(self)@.entities[entity as int] },
            ),
            final(self)@.same_resources(old(self)@),
    {
        let r = &mut self.entities[entity];
        r.goal = Some(component);
        proof {
            assert(self@.entities =~= old(self)@.entities.update(
                entity as int,
                EntityView { goal: Some(component), ..old(self)@.entities[entity as int] },
            ));
        }
    }

    /// Removes the entity's active animation, if any.
    pub fn remove_animation(&mut self, entity: usize)
        requires
            entity < old(self)@.entities.len(),
        ensures
            final(self)@.entities =~= old(self)@.entities.update(
                entity as int,
                EntityView { animation: None, ..old(self)@.entities[entity as int] },
            ),
            final(self)@.same_resources(old(self)@),
    {
        let r = &mut self.entities[entity];
        r.animation = None;
        proof {
            assert(self@.entities =~= old(self)@.entities.update(
                entity as int,
                EntityView { animation: None, ..old(self)@.entities[entity as int] },
            ));
        }
    }

    pub fn get_bounding_box(&self, entity: usize) -> (r: Option<&BoundingBox>)
        requires
            entity < self@.entities.len(),
        ensures
            match r {
                Some(c) => self@.entities[entity as int].bounding_box == Some(*c),
                None => self@.entities[entity as int].bounding_box is None,
            },
    {
        self.entities[entity].bounding_box.as_ref()
    }

    pub fn get_velocity(&self, entity: usize) -> (r: Option<&Velocity>)
        requires
            entity < self@.entities.len(),
        ensures
            match r {
                Some(c) => self@.entities[entity as int].velocity == Some(*c),
                None => self@.entities[entity as int].velocity is None,
            },
    {
        self.entities[entity].velocity.as_ref()
    }

    pub fn get_sprite(&self, entity: usize) -> (r: Option<&Sprite>)
        requires
            entity < self@.entities.len(),
        ensures
            match r {
                Some(c) => self@.entities[entity as int].sprite == Some(*c),
                None => self@.entities[entity as int].sprite is None,
            },
    {
        self.entities[entity].sprite.as_ref()
    }

    pub fn get_animation(&self, entity: usize) -> (r: Option<&Animation>)
        requires
            entity < self@.entities.len(),
        ensures
            match r {
                Some(c) => self@.entities[entity as int].animation == Some(c@),
                None => self@.entities[entity as int].animation is None,
            },
    {
        self.entities[entity].animation.as_ref()
    }

    pub fn get_movement_animations(&self, entity: usize) -> (r: Option<&MovementAnimations>)
        requires
            entity < self@.entities.len(),
        ensures
            match r {
                Some(c) => self@.entities[entity as int].movement_animations == Some(c@),
                None => self@.entities[entity as int].movement_animations is None,
            },
    {
        self.entities[entity].movement_animations.as_ref()
    }

    pub fn get_player(&self, entity: usize) -> (r: Option<&Player>)
        requires
            entity < self@.entities.len(),
        ensures
            match r {
                Some(c) => self@.entities[entity as int].player == Some(*c),
                None => self@.entities[entity as int].player is None,
            },
    {
        self.entities[entity].player.as_ref()
    }

    pub fn get_enemy(&self, entity: usize) -> (r: Option<&Enemy>)
        requires
            entity < self@.entities.len(),
        ensures
            match r {
                Some(c) => self@.entities[entity as int].enemy == Some(*c),
                None => self@.entities[entity as int].enemy is None,
            },
    {
        self.entities[entity].enemy.as_ref()
    }

    pub fn get_goal(&self, entity: usize) -> (r: Option<&Goal>)
        requires
            entity < self@.entities.len(),
        ensures
            match r {
                Some(c) => self@.entities[entity as int].goal == Some(*c),
                None => self@.entities[entity as int].goal is None,
            },
    {
        self.entities[entity].goal.as_ref()
    }
}

} // verus!
