use minimal_game::animator::Animator;
use minimal_game::components::{BoundingBox, MovementAnimations, Sprite, Velocity};
use minimal_game::direction::Direction;
use minimal_game::geometry::Rect;
use minimal_game::keyboard::Keyboard;
use minimal_game::movement::Movement;
use minimal_game::resources::{KeyboardEvent, TimeDelta};
use minimal_game::world::World;

fn movement() -> Movement {
    Movement { world_bounds: Rect::from_center(0, 0, 900, 900) }
}

fn world_with_moving_box(speed: u32, direction: Direction, micros: u64) -> World {
    let mut world = World::new();
    let e = world.create_entity();
    world.insert_velocity(e, Velocity { speed, direction });
    world.insert_bounding_box(e, BoundingBox(Rect::from_center(0, 0, 32, 32)));
    world.set_time_delta(TimeDelta(micros));
    world
}

fn center_x(world: &World, e: usize) -> i32 {
    world.get_bounding_box(e).unwrap().0.center().x
}

fn center_y(world: &World, e: usize) -> i32 {
    world.get_bounding_box(e).unwrap().0.center().y
}

#[test]
fn displacement_at_player_speed_over_one_frame() {
    // 200 units/s for 16667 us: 200 * 16667 / 1_000_000 = 3 (truncated).
    let mut world = world_with_moving_box(200, Direction::Right, 16667);
    movement().run(&mut world);
    assert_eq!(center_x(&world, 0), 3);
    assert_eq!(center_y(&world, 0), 0);
}

#[test]
fn displacement_truncates_to_zero_despite_motion() {
    // 50 * 16667 = 833_350 < 1_000_000, so the move truncates to nothing.
    let mut world = world_with_moving_box(50, Direction::Right, 16667);
    movement().run(&mut world);
    assert_eq!(center_x(&world, 0), 0);
    assert_eq!(center_y(&world, 0), 0);
}

#[test]
fn displacement_combinations_truncate_exactly() {
    let cases: Vec<(u32, u64, i32)> = vec![
        (200, 16667, 3),
        (1000, 999, 0),
        (123, 1_000_000, 123),
        (60, 16667, 1),
        (1, 999_999, 0),
    ];
    for (speed, micros, expect) in cases {
        let mut world = world_with_moving_box(speed, Direction::Down, micros);
        movement().run(&mut world);
        assert_eq!(center_y(&world, 0), expect, "speed {speed} micros {micros}");
        assert_eq!(center_x(&world, 0), 0);
    }
}

#[test]
fn movement_moves_along_each_direction() {
    for (dir, dx, dy) in [
        (Direction::Up, 0, -3),
        (Direction::Down, 0, 3),
        (Direction::Left, -3, 0),
        (Direction::Right, 3, 0),
    ] {
        let mut world = world_with_moving_box(200, dir, 16667);
        movement().run(&mut world);
        assert_eq!((center_x(&world, 0), center_y(&world, 0)), (dx, dy));
    }
}

#[test]
fn movement_preserves_box_size() {
    let mut world = world_with_moving_box(200, Direction::Left, 16667);
    movement().run(&mut world);
    let b = world.get_bounding_box(0).unwrap().0;
    assert_eq!((b.width, b.height), (32, 32));
}

#[test]
fn stationary_entity_never_moves() {
    let mut world = world_with_moving_box(0, Direction::Right, 16667);
    let before = world.get_bounding_box(0).unwrap().0;
    movement().run(&mut world);
    let after = world.get_bounding_box(0).unwrap().0;
    assert_eq!(before, after);
}

fn sheet(texture_id: usize, token_base: u64) -> MovementAnimations {
    MovementAnimations::standard_walking_animations(
        texture_id,
        Rect::new(0, 0, 52, 72),
        3,
        150_000,
        token_base,
    )
}

/// An entity with velocity, sprite, an active animation cloned from its own
/// table for `active_dir`, and the full table.
fn animated_world(speed: u32, facing: Direction, active_dir: Direction) -> World {
    let mut world = World::new();
    let e = world.create_entity();
    world.insert_velocity(e, Velocity { speed, direction: facing });
    let table = sheet(0, 0);
    let active = table.animation_for(active_dir).duplicate();
    world.insert_sprite(e, active.frames[0].sprite);
    world.insert_animation(e, active);
    world.insert_movement_animations(e, table);
    world
}

#[test]
fn animator_removes_animation_at_zero_speed() {
    let mut world = animated_world(0, Direction::Down, Direction::Down);
    assert!(world.get_animation(0).is_some());
    Animator::run(&mut world, 1_000);
    assert!(world.get_animation(0).is_none());
    // The sprite is left as whatever frame it last showed.
    assert!(world.get_sprite(0).is_some());
}

#[test]
fn animator_installs_an_animation_where_none_is_active() {
    let mut world = World::new();
    let e = world.create_entity();
    world.insert_velocity(e, Velocity { speed: 200, direction: Direction::Left });
    let table = sheet(0, 0);
    world.insert_sprite(e, table.walking_down.frames[0].sprite);
    world.insert_movement_animations(e, table);
    assert!(world.get_animation(e).is_none());
    Animator::run(&mut world, 2_000);
    let anim = world.get_animation(e).unwrap();
    assert_eq!(anim.frames_token, sheet(0, 0).walking_left.frames_token);
    assert_eq!(anim.current_frame, 0);
    assert_eq!(anim.frame_timer, 2_000);
    assert_eq!(
        *world.get_sprite(e).unwrap(),
        sheet(0, 0).walking_left.frames[0].sprite
    );
}

#[test]
fn animator_leaves_stationary_animation_free_entities_alone() {
    // A standing entity with a table but no active animation must not have
    // one installed: otherwise it would flicker, gaining an animation on one
    // frame and losing it on the next.
    let mut world = World::new();
    let e = world.create_entity();
    world.insert_velocity(e, Velocity { speed: 0, direction: Direction::Left });
    let table = sheet(0, 0);
    let resting_sprite = table.walking_down.frames[0].sprite;
    world.insert_sprite(e, resting_sprite);
    world.insert_movement_animations(e, table);
    Animator::run(&mut world, 2_000);
    assert!(world.get_animation(e).is_none());
    assert_eq!(*world.get_sprite(e).unwrap(), resting_sprite);
    // A second pass is just as quiet.
    Animator::run(&mut world, 4_000);
    assert!(world.get_animation(e).is_none());
    assert_eq!(*world.get_sprite(e).unwrap(), resting_sprite);
}

#[test]
fn animator_direction_switch_resets_frame_index() {
    let mut world = animated_world(200, Direction::Right, Direction::Down);
    // Advance the stale animation past frame 0 by hand.
    let mut stale = world.get_animation(0).unwrap().duplicate();
    stale.current_frame = 2;
    world.insert_animation(0, stale);
    let old_sprite = *world.get_sprite(0).unwrap();

    Animator::run(&mut world, 5_000);

    let anim = world.get_animation(0).unwrap();
    let table = sheet(0, 0);
    assert_eq!(anim.frames_token, table.animation_for(Direction::Right).frames_token);
    assert_eq!(anim.current_frame, 0);
    assert_eq!(anim.frame_timer, 5_000);
    assert_eq!(anim.frames.len(), 3);
    // The sprite already shows frame 0 of the new direction's template,
    // not the old direction's frame it was showing before.
    let expected = table.animation_for(Direction::Right).frames[0].sprite;
    assert_ne!(expected, old_sprite);
    assert_eq!(*world.get_sprite(0).unwrap(), expected);
}

#[test]
fn animator_frame_advance_waits_out_the_duration() {
    let mut world = animated_world(200, Direction::Down, Direction::Down);
    let sprite_before = *world.get_sprite(0).unwrap();
    // Elapsed 149_999 < 150_000: nothing may change.
    Animator::run(&mut world, 149_999);
    let anim = world.get_animation(0).unwrap();
    assert_eq!(anim.current_frame, 0);
    assert_eq!(anim.frame_timer, 0);
    assert_eq!(*world.get_sprite(0).unwrap(), sprite_before);
}

#[test]
fn animator_advances_one_frame_and_updates_sprite() {
    let mut world = animated_world(200, Direction::Down, Direction::Down);
    let expected: Sprite = {
        let table = sheet(0, 0);
        table.animation_for(Direction::Down).frames[1].sprite
    };
    Animator::run(&mut world, 150_000);
    let anim = world.get_animation(0).unwrap();
    assert_eq!(anim.current_frame, 1);
    assert_eq!(anim.frame_timer, 150_000);
    assert_eq!(*world.get_sprite(0).unwrap(), expected);
}

#[test]
fn animator_advances_at_most_one_frame_per_pass() {
    let mut world = animated_world(200, Direction::Down, Direction::Down);
    // Ten durations have elapsed; still only one step is taken.
    Animator::run(&mut world, 1_500_000);
    assert_eq!(world.get_animation(0).unwrap().current_frame, 1);
}

#[test]
fn animator_wraps_frame_index_modulo_length() {
    let mut world = animated_world(200, Direction::Down, Direction::Down);
    Animator::run(&mut world, 150_000);
    Animator::run(&mut world, 300_000);
    assert_eq!(world.get_animation(0).unwrap().current_frame, 2);
    Animator::run(&mut world, 450_000);
    assert_eq!(world.get_animation(0).unwrap().current_frame, 0);
}

#[test]
fn keyboard_sets_player_velocity_from_event() {
    let mut world = World::new();
    let e = world.create_entity();
    world.insert_player(e, minimal_game::components::Player { movement_speed: 200 });
    world.insert_velocity(e, Velocity { speed: 0, direction: Direction::Down });
    world.set_keyboard_event(Some(KeyboardEvent::MoveInDirection(Direction::Left)));
    Keyboard::run(&mut world);
    let v = *world.get_velocity(e).unwrap();
    assert_eq!(v.speed, 200);
    assert_eq!(v.direction, Direction::Left);
}

#[test]
fn keyboard_stop_keeps_direction() {
    let mut world = World::new();
    let e = world.create_entity();
    world.insert_player(e, minimal_game::components::Player { movement_speed: 200 });
    world.insert_velocity(e, Velocity { speed: 200, direction: Direction::Up });
    world.set_keyboard_event(Some(KeyboardEvent::Stop));
    Keyboard::run(&mut world);
    let v = *world.get_velocity(e).unwrap();
    assert_eq!(v.speed, 0);
    assert_eq!(v.direction, Direction::Up);
}

#[test]
fn keyboard_without_event_changes_nothing() {
    let mut world = World::new();
    let e = world.create_entity();
    world.insert_player(e, minimal_game::components::Player { movement_speed: 200 });
    world.insert_velocity(e, Velocity { speed: 150, direction: Direction::Up });
    world.set_keyboard_event(None);
    Keyboard::run(&mut world);
    let v = *world.get_velocity(e).unwrap();
    assert_eq!(v.speed, 150);
    assert_eq!(v.direction, Direction::Up);
}

#[test]
fn keyboard_ignores_entities_without_player_marker() {
    let mut world = World::new();
    let e = world.create_entity();
    world.insert_velocity(e, Velocity { speed: 7, direction: Direction::Up });
    world.set_keyboard_event(Some(KeyboardEvent::MoveInDirection(Direction::Down)));
    Keyboard::run(&mut world);
    let v = *world.get_velocity(e).unwrap();
    assert_eq!(v.speed, 7);
    assert_eq!(v.direction, Direction::Up);
}
