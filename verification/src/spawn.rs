use vstd::prelude::*;

use crate::components::{
    spec_standard_animation, BoundingBox, Enemy, Goal, MovementAnimations, Player, Sprite,
    Velocity,
};
use crate::direction::Direction;
use crate::geometry::{Point, Rect};
use crate::rng::random_in_range;
use crate::world::{EntityView, World};

verus! {

/// What the spawn code needs to know of the window and the loaded assets:
/// the world's nominal size in pixels and the indices of the three textures.
#[derive(Clone, Copy, Debug, PartialEq, Eq, Structural)]
pub struct WorldConfig {
    pub width: u32,
    pub height: u32,
    pub bardo_texture: usize,
    pub reaper_texture: usize,
    pub pink_tree_texture: usize,
}

/// The goal entity spawned at a horizontal position `x`: the win-condition
/// marker, a box near the top of the world, and the tree sprite.
pub open spec fn spec_goal_record(cfg: WorldConfig, x: int) -> EntityView {
    EntityView {
        goal: Some(Goal),
        bounding_box: Some(
            BoundingBox(
                Rect::spec_from_center(x, -((cfg.height / 2 - 116) as int), 92, 116),
            ),
        ),
        sprite: Some(
            Sprite {
                texture_id: cfg.pink_tree_texture,
                region: Rect { x: 0, y: 0, width: 128, height: 128 },
            },
        ),
        ..EntityView::empty()
    }
}

/// The player entity spawned at a horizontal position `x`, with its walking
/// animation table built from the player spritesheet under `token_base`.
pub open spec fn spec_player_record(cfg: WorldConfig, x: int, token_base: u64) -> EntityView {
    let down = spec_standard_animation(
        cfg.bardo_texture,
        Rect { x: 0, y: 0, width: 52, height: 72 },
        3,
        150_000,
        0,
        token_base,
    );
    EntityView {
        player: Some(Player { movement_speed: 200 }),
        bounding_box: Some(BoundingBox(Rect::spec_from_center(x, 250, 32, 58))),
        velocity: Some(Velocity { speed: 0, direction: Direction::Down }),
        sprite: Some(down.frames[0].sprite),
        animation: Some(down),
        movement_animations: Some(
            crate::components::MovementAnimationsView {
                walking_down: down,
                walking_left: spec_standard_animation(
                    cfg.bardo_texture,
                    Rect { x: 0, y: 0, width: 52, height: 72 },
                    3,
                    150_000,
                    1,
                    (token_base + 1) as u64,
                ),
                walking_right: spec_standard_animation(
                    cfg.bardo_texture,
                    Rect { x: 0, y: 0, width: 52, height: 72 },
                    3,
                    150_000,
                    2,
                    (token_base + 2) as u64,
                ),
                walking_up: spec_standard_animation(
                    cfg.bardo_texture,
                    Rect { x: 0, y: 0, width: 52, height: 72 },
                    3,
                    150_000,
                    3,
                    (token_base + 3) as u64,
                ),
            },
        ),
        ..EntityView::empty()
    }
}

/// One enemy entity spawned at `pos` facing `dir`, with its walking
/// animation table built from the reaper spritesheet under `token_base` and
/// its direction timer starting at `now`.
pub open spec fn spec_enemy_record(
    cfg: WorldConfig,
    pos: Point,
    dir: Direction,
    token_base: u64,
    now: u64,
) -> EntityView {
    let sheet = Rect { x: 0, y: 0, width: 64, height: 72 };
    let row: int = match dir {
        Direction::Down => 0,
        Direction::Left => 1,
        Direction::Right => 2,
        Direction::Up => 3,
    };
    let token: u64 = (token_base + row) as u64;
    let facing = spec_standard_animation(cfg.reaper_texture, sheet, 3, 150_000, row, token);
    EntityView {
        enemy: Some(Enemy { direction_timer: now, direction_change_delay: 200_000 }),
        bounding_box: Some(
            BoundingBox(Rect::spec_from_center(pos.x as int, pos.y as int, 50, 58)),
        ),
        velocity: Some(Velocity { speed: 200, direction: dir }),
        sprite: Some(facing.frames[0].sprite),
        animation: Some(facing),
        movement_animations: Some(
            crate::components::MovementAnimationsView {
                walking_down: spec_standard_animation(
                    cfg.reaper_texture, sheet, 3, 150_000, 0, token_base,
                ),
                walking_left: spec_standard_animation(
                    cfg.reaper_texture, sheet, 3, 150_000, 1, (token_base + 1) as u64,
                ),
                walking_right: spec_standard_animation(
                    cfg.reaper_texture, sheet, 3, 150_000, 2, (token_base + 2) as u64,
                ),
                walking_up: spec_standard_animation(
                    cfg.reaper_texture, sheet, 3, 150_000, 3, (token_base + 3) as u64,
                ),
            },
        ),
        ..EntityView::empty()
    }
}

/// An entity that enemy spawning can have produced at time `now` in the
/// grid cell `(cell_x, cell_y)`: centered somewhere in that cell's box —
/// `cell_x * 200` give or take 80 across, `cell_y * 140 + 200` give or take
/// 40 down — facing some direction, under some token base.  The cells are
/// disjoint with a margin wider than an enemy's bounding box, so freshly
/// spawned enemies never overlap one another.
pub open spec fn is_spawned_enemy(
    e: EntityView,
    cfg: WorldConfig,
    cell_x: int,
    cell_y: int,
    now: u64,
) -> bool {
    exists|pos: Point, dir: Direction, base: u64|
        cell_x * 200 - 80 <= pos.x < cell_x * 200 + 80
            && cell_y * 140 + 200 - 40 <= pos.y < cell_y * 140 + 200 + 40
            && e == #[trigger] spec_enemy_record(cfg, pos, dir, base, now)
}

/// Spawns the goal entity at a uniformly random horizontal position within
/// the world's width, near the top edge.
pub fn generate_goal_in_world(world: &mut World, cfg: &WorldConfig)
    requires
        old(world)@.entities.len() < usize::MAX,
        cfg.width / 2 >= 1,
        cfg.width / 2 + 46 <= i32::MAX,
        cfg.height / 2 >= 116,
    ensures
        final(world)@.entities.len() == old(world)@.entities.len() + 1,
        forall|i: int| 0 <= i < old(world)@.entities.len()
            ==> final(world)@.entities[i] == #[trigger] old(world)@.entities[i],
        exists|x: int|
            -(cfg.width / 2) <= x < cfg.width / 2 && final(world)@.entities[
                old(world)@.entities.len() as int
            ] == spec_goal_record(*cfg, x),
        final(world)@.same_resources(old(world)@),
{
    let half = (cfg.width / 2) as i32;
    let random_x_position = random_in_range(-half, half);
    let y_position = -(((cfg.height / 2) - 116) as i32);
    let entity = world.create_entity();
    world.insert_goal(entity, Goal);
    world.insert_bounding_box(
        entity,
        BoundingBox(Rect::from_center(random_x_position, y_position, 92, 116)),
    );
    world.insert_sprite(
        entity,
        Sprite { texture_id: cfg.pink_tree_texture, region: Rect::new(0, 0, 128, 128) },
    );
    proof {
        assert(final(world)@.entities[old(world)@.entities.len() as int]
            =~= spec_goal_record(*cfg, random_x_position as int));
    }
}

/// Spawns the player entity at a uniformly random horizontal position, at
/// rest, facing down, with its walking animations.
pub fn generate_player_in_world(world: &mut World, cfg: &WorldConfig)
    requires
        old(world)@.entities.len() < usize::MAX,
        old(world)@.next_token <= u64::MAX - 4,
        cfg.width / 2 >= 1,
        cfg.width / 2 + 16 <= i32::MAX,
    ensures
        final(world)@.entities.len() == old(world)@.entities.len() + 1,
        forall|i: int| 0 <= i < old(world)@.entities.len()
            ==> final(world)@.entities[i] == #[trigger] old(world)@.entities[i],
        exists|x: int|
            -(cfg.width / 2) <= x < cfg.width / 2 && final(world)@.entities[
                old(world)@.entities.len() as int
            ] == spec_player_record(*cfg, x, old(world)@.next_token),
        final(world)@.next_token == old(world)@.next_token + 4,
        final(world)@.time_delta == old(world)@.time_delta,
        final(world)@.keyboard_event == old(world)@.keyboard_event,
        final(world)@.game_status == old(world)@.game_status,
{
    let token_base = world.fresh_animation_tokens();
    let player_animations = MovementAnimations::standard_walking_animations(
        cfg.bardo_texture,
        Rect::new(0, 0, 52, 72),
        3,
        150_000,
        token_base,
    );
    let half = (cfg.width / 2) as i32;
    let random_x_position = random_in_range(-half, half);
    let entity = world.create_entity();
    world.insert_player(entity, Player { movement_speed: 200 });
    world.insert_bounding_box(
        entity,
        BoundingBox(Rect::from_center(random_x_position, 250, 32, 58)),
    );
    world.insert_velocity(entity, Velocity { speed: 0, direction: Direction::Down });
    let first_sprite = player_animations.animation_for(Direction::Down).frames[0].sprite;
    world.insert_sprite(entity, first_sprite);
    let starting_animation = player_animations.animation_for(Direction::Down).duplicate();
    world.insert_animation(entity, starting_animation);
    world.insert_movement_animations(entity, player_animations);
    proof {
        assert(final(world)@.entities[old(world)@.entities.len() as int]
            =~= spec_player_record(*cfg, random_x_position as int, old(world)@.next_token));
    }
}

/// Spawns one enemy at the given position, facing the given direction, at a
/// constant configured speed, with its walking animations and re-decision
/// cadence.
pub fn generate_ennemy_in_world(
    world: &mut World,
    enemy_pos: Point,
    enemy_dir: Direction,
    cfg: &WorldConfig,
    now: u64,
)
    requires
        old(world)@.entities.len() < usize::MAX,
        old(world)@.next_token <= u64::MAX - 4,
        i32::MIN + 25 <= enemy_pos.x as int,
        i32::MIN + 29 <= enemy_pos.y as int,
    ensures
        final(world)@.entities.len() == old(world)@.entities.len() + 1,
        forall|i: int| 0 <= i < old(world)@.entities.len()
            ==> final(world)@.entities[i] == #[trigger] old(world)@.entities[i],
        final(world)@.entities[old(world)@.entities.len() as int] == spec_enemy_record(
            *cfg,
            enemy_pos,
            enemy_dir,
            old(world)@.next_token,
            now,
        ),
        final(world)@.next_token == old(world)@.next_token + 4,
        final(world)@.time_delta == old(world)@.time_delta,
        final(world)@.keyboard_event == old(world)@.keyboard_event,
        final(world)@.game_status == old(world)@.game_status,
{
    let token_base = world.fresh_animation_tokens();
    let enemy_animations = MovementAnimations::standard_walking_animations(
        cfg.reaper_texture,
        Rect::new(0, 0, 64, 72),
        3,
        150_000,
        token_base,
    );
    let entity = world.create_entity();
    world.insert_enemy(
        entity,
        Enemy { direction_timer: now, direction_change_delay: 200_000 },
    );
    world.insert_bounding_box(
        entity,
        BoundingBox(Rect::from_center(enemy_pos.x, enemy_pos.y, 50, 58)),
    );
    world.insert_velocity(entity, Velocity { speed: 200, direction: enemy_dir });
    let first_sprite = enemy_animations.animation_for(enemy_dir).frames[0].sprite;
    world.insert_sprite(entity, first_sprite);
    let starting_animation = enemy_animations.animation_for(enemy_dir).duplicate();
    world.insert_animation(entity, starting_animation);
    world.insert_movement_animations(entity, enemy_animations);
    proof {
        assert(final(world)@.entities[old(world)@.entities.len() as int]
            =~= spec_enemy_record(*cfg, enemy_pos, enemy_dir, old(world)@.next_token, now));
    }
}

/// Spawns six enemies in random positions.  To avoid overlap with anything
/// else, an area of the world coordinate system is divided up into a 2D
/// grid of three columns and two rows; each enemy gets a random position
/// within one of the cells of that grid and a uniformly random facing.
pub fn generate_enemies_in_world(world: &mut World, cfg: &WorldConfig, now: u64)
    requires
        old(world)@.entities.len() <= usize::MAX - 6,
        old(world)@.next_token <= u64::MAX - 24,
    ensures
        final(world)@.entities.len() == old(world)@.entities.len() + 6,
        forall|i: int| 0 <= i < old(world)@.entities.len()
            ==> final(world)@.entities[i] == #[trigger] old(world)@.entities[i],
        forall|m: int| 0 <= m < 6 ==> #[trigger] is_spawned_enemy(
            final(world)@.entities[old(world)@.entities.len() + m],
            *cfg,
            m / 2 - 1,
            m % 2 - 2,
            now,
        ),
        final(world)@.next_token == old(world)@.next_token + 24,
        final(world)@.time_delta == old(world)@.time_delta,
        final(world)@.keyboard_event == old(world)@.keyboard_event,
        final(world)@.game_status == old(world)@.game_status,
{
    let ghost n0 = old(world)@.entities.len();
    let ghost t0 = old(world)@.next_token;
    let mut i: i32 = -1;
    while i < 2
        invariant
            -1 <= i <= 2,
            world@.entities.len() == n0 + (i + 1) * 2,
            world@.next_token == t0 + 8 * (i + 1),
            n0 <= usize::MAX - 6,
            t0 <= u64::MAX - 24,
            n0 == old(world)@.entities.len(),
            t0 == old(world)@.next_token,
            forall|q: int| 0 <= q < n0
                ==> world@.entities[q] == #[trigger] old(world)@.entities[q],
            forall|m: int| 0 <= m < (i + 1) * 2 ==> #[trigger] is_spawned_enemy(
                world@.entities[n0 + m],
                *cfg,
                m / 2 - 1,
                m % 2 - 2,
                now,
            ),
            world@.time_delta == old(world)@.time_delta,
            world@.keyboard_event == old(world)@.keyboard_event,
            world@.game_status == old(world)@.game_status,
        decreases 2 - i,
    {
        let mut j: i32 = -2;
        while j < 0
            invariant
                -1 <= i < 2,
                -2 <= j <= 0,
                world@.entities.len() == n0 + (i + 1) * 2 + (j + 2),
                world@.next_token == t0 + 8 * (i + 1) + 4 * (j + 2),
                n0 <= usize::MAX - 6,
                t0 <= u64::MAX - 24,
                n0 == old(world)@.entities.len(),
                t0 == old(world)@.next_token,
                forall|q: int| 0 <= q < n0
                    ==> world@.entities[q] == #[trigger] old(world)@.entities[q],
                forall|m: int| 0 <= m < (i + 1) * 2 + (j + 2)
                    ==> #[trigger] is_spawned_enemy(
                        world@.entities[n0 + m],
                        *cfg,
                        m / 2 - 1,
                        m % 2 - 2,
                        now,
                    ),
                world@.time_delta == old(world)@.time_delta,
                world@.keyboard_event == old(world)@.keyboard_event,
                world@.game_status == old(world)@.game_status,
            decreases 0 - j,
        {
            let enemy_pos = Point {
                x: i * 200 + random_in_range(-80, 80),
                y: j * 140 + 200 + random_in_range(-40, 40),
            };
            let enemy_dir = match random_in_range(0, 4) {
                0 => Direction::Up,
                1 => Direction::Down,
                2 => Direction::Left,
                _ => Direction::Right,
            };
            let ghost m = (i + 1) * 2 + (j + 2);
            let ghost pre = world@;
            generate_ennemy_in_world(world, enemy_pos, enemy_dir, cfg, now);
            proof {
                assert forall|mm: int| 0 <= mm < m + 1 implies #[trigger] is_spawned_enemy(
                    world@.entities[n0 + mm],
                    *cfg,
                    mm / 2 - 1,
                    mm % 2 - 2,
                    now,
                ) by {
                    if mm == m {
                        assert(mm / 2 - 1 == i && mm % 2 - 2 == j);
                        assert(world@.entities[n0 + mm] == spec_enemy_record(
                            *cfg,
                            enemy_pos,
                            enemy_dir,
                            pre.next_token,
                            now,
                        ));
                    } else {
                        assert(world@.entities[n0 + mm] == pre.entities[n0 + mm]);
                        assert(is_spawned_enemy(
                            pre.entities[n0 + mm],
                            *cfg,
                            mm / 2 - 1,
                            mm % 2 - 2,
                            now,
                        ));
                    }
                }
            }
            j = j + 1;
        }
        i = i + 1;
    }
}

} // verus!
