use minimal_game::components::{BoundingBox, MovementAnimations, Sprite, Velocity};
use minimal_game::direction::Direction;
use minimal_game::events::{handle_game_events, GameEvent, Key};
use minimal_game::geometry::{Point, Rect};
use minimal_game::render::{player_bounding_box, render_snapshot, screen_rect};
use minimal_game::resources::KeyboardEvent;
use minimal_game::spawn::{
    generate_enemies_in_world, generate_goal_in_world, generate_player_in_world, WorldConfig,
};
use minimal_game::world::World;

fn config() -> WorldConfig {
    WorldConfig {
        width: 900,
        height: 900,
        bardo_texture: 0,
        reaper_texture: 1,
        pink_tree_texture: 2,
    }
}

#[test]
fn rect_center_round_trip() {
    let r = Rect::from_center(10, -20, 92, 116);
    assert_eq!(r.x, 10 - 46);
    assert_eq!(r.y, -20 - 58);
    let c = r.center();
    assert_eq!((c.x, c.y), (10, -20));
}

#[test]
fn rect_offset_moves_the_corner() {
    let mut r = Rect::new(5, 6, 10, 20);
    r.offset(52, -104);
    assert_eq!((r.x, r.y, r.width, r.height), (57, -98, 10, 20));
}

#[test]
fn direction_unit_vectors() {
    assert_eq!(Direction::Up.into_point(), Point { x: 0, y: -1 });
    assert_eq!(Direction::Down.into_point(), Point { x: 0, y: 1 });
    assert_eq!(Direction::Left.into_point(), Point { x: -1, y: 0 });
    assert_eq!(Direction::Right.into_point(), Point { x: 1, y: 0 });
}

#[test]
fn store_insert_get_remove_cycle() {
    let mut world = World::new();
    let a = world.create_entity();
    let b = world.create_entity();
    assert_eq!((a, b), (0, 1));
    assert_eq!(world.entity_count(), 2);
    world.insert_velocity(a, Velocity { speed: 4, direction: Direction::Up });
    assert!(world.get_velocity(b).is_none());
    // Insert overwrites a present instance.
    world.insert_velocity(a, Velocity { speed: 9, direction: Direction::Left });
    assert_eq!(world.get_velocity(a).unwrap().speed, 9);
}

#[test]
fn standard_walking_animations_follow_the_spritesheet_convention() {
    let table = MovementAnimations::standard_walking_animations(
        7,
        Rect::new(0, 0, 52, 72),
        3,
        150_000,
        40,
    );
    // Row order top to bottom: down, left, right, up.
    for (anim, row) in [
        (&table.walking_down, 0i32),
        (&table.walking_left, 1),
        (&table.walking_right, 2),
        (&table.walking_up, 3),
    ] {
        assert_eq!(anim.frames.len(), 3);
        assert_eq!(anim.current_frame, 0);
        for (j, frame) in anim.frames.iter().enumerate() {
            assert_eq!(frame.duration, 150_000);
            assert_eq!(frame.sprite.texture_id, 7);
            let r = frame.sprite.region;
            assert_eq!((r.x, r.y), (j as i32 * 52, row * 72));
            assert_eq!((r.width, r.height), (52, 72));
        }
    }
    // The four sequences carry distinct identity tokens from the base.
    let tokens = [
        table.walking_down.frames_token,
        table.walking_left.frames_token,
        table.walking_right.frames_token,
        table.walking_up.frames_token,
    ];
    assert_eq!(tokens, [40, 41, 42, 43]);
}

#[test]
fn independently_built_tables_count_as_different() {
    // Structurally identical sequences built independently must not compare
    // equal for change detection: the identity tokens differ.
    let first = MovementAnimations::standard_walking_animations(
        0, Rect::new(0, 0, 52, 72), 3, 150_000, 0,
    );
    let second = MovementAnimations::standard_walking_animations(
        0, Rect::new(0, 0, 52, 72), 3, 150_000, 4,
    );
    assert_eq!(first.walking_down.frames, second.walking_down.frames);
    assert_ne!(first.walking_down.frames_token, second.walking_down.frames_token);
}

#[test]
fn animation_for_selects_by_direction() {
    let table = MovementAnimations::standard_walking_animations(
        0, Rect::new(0, 0, 52, 72), 3, 150_000, 0,
    );
    assert_eq!(
        table.animation_for(Direction::Up).frames_token,
        table.walking_up.frames_token
    );
    assert_eq!(
        table.animation_for(Direction::Down).frames_token,
        table.walking_down.frames_token
    );
}

#[test]
fn goal_spawns_near_the_top_inside_the_world() {
    for _ in 0..50 {
        let mut world = World::new();
        generate_goal_in_world(&mut world, &config());
        assert_eq!(world.entity_count(), 1);
        assert!(world.get_goal(0).is_some());
        let b = world.get_bounding_box(0).unwrap().0;
        assert_eq!((b.width, b.height), (92, 116));
        let c = b.center();
        assert!((-450..450).contains(&c.x), "goal x {}", c.x);
        assert_eq!(c.y, -(450 - 116));
        let s = world.get_sprite(0).unwrap();
        assert_eq!(s.texture_id, 2);
        assert_eq!(s.region, Rect::new(0, 0, 128, 128));
    }
}

#[test]
fn goal_positions_vary_across_spawns() {
    let mut seen = Vec::new();
    for _ in 0..100 {
        let mut world = World::new();
        generate_goal_in_world(&mut world, &config());
        seen.push(world.get_bounding_box(0).unwrap().0.center().x);
    }
    let first = seen[0];
    assert!(
        seen.iter().any(|x| *x != first),
        "a uniform draw over 900 positions returned the same value 100 times"
    );
}

#[test]
fn player_spawns_at_rest_facing_down() {
    let mut world = World::new();
    generate_player_in_world(&mut world, &config());
    assert_eq!(world.entity_count(), 1);
    assert_eq!(world.get_player(0).unwrap().movement_speed, 200);
    let v = *world.get_velocity(0).unwrap();
    assert_eq!((v.speed, v.direction), (0, Direction::Down));
    let b = world.get_bounding_box(0).unwrap().0;
    assert_eq!((b.width, b.height), (32, 58));
    assert_eq!(b.center().y, 250);
    let table = world.get_movement_animations(0).unwrap();
    // The starting animation and sprite come from the walking-down template.
    let anim = world.get_animation(0).unwrap();
    assert_eq!(anim.frames_token, table.walking_down.frames_token);
    assert_eq!(anim.current_frame, 0);
    assert_eq!(
        *world.get_sprite(0).unwrap(),
        table.walking_down.frames[0].sprite
    );
}

#[test]
fn six_enemies_spawn_on_the_grid() {
    let mut world = World::new();
    generate_enemies_in_world(&mut world, &config(), 1_000);
    assert_eq!(world.entity_count(), 6);
    for e in 0..6 {
        let en = *world.get_enemy(e).unwrap();
        assert_eq!(en.direction_timer, 1_000);
        assert_eq!(en.direction_change_delay, 200_000);
        let v = *world.get_velocity(e).unwrap();
        assert_eq!(v.speed, 200);
        let b = world.get_bounding_box(e).unwrap().0;
        assert_eq!((b.width, b.height), (50, 58));
        // One enemy per grid cell, so fresh enemies never overlap.
        let cell_x = (e as i32) / 2 - 1;
        let cell_y = (e as i32) % 2 - 2;
        let c = b.center();
        let x0 = cell_x * 200;
        let y0 = cell_y * 140 + 200;
        assert!((x0 - 80..x0 + 80).contains(&c.x), "enemy {e} x {}", c.x);
        assert!((y0 - 40..y0 + 40).contains(&c.y), "enemy {e} y {}", c.y);
        assert!(world.get_animation(e).is_some());
        assert!(world.get_movement_animations(e).is_some());
        assert_eq!(world.get_sprite(e).unwrap().texture_id, 1);
    }
}

#[test]
fn events_fold_to_the_last_effect() {
    let up = GameEvent::KeyDown { key: Key::Up, repeat: false };
    let left = GameEvent::KeyDown { key: Key::Left, repeat: false };
    let up_release = GameEvent::KeyUp { key: Key::Up, repeat: false };
    assert_eq!(handle_game_events(&vec![]), None);
    assert_eq!(
        handle_game_events(&vec![up]),
        Some(KeyboardEvent::MoveInDirection(Direction::Up))
    );
    assert_eq!(
        handle_game_events(&vec![up, left]),
        Some(KeyboardEvent::MoveInDirection(Direction::Left))
    );
    assert_eq!(
        handle_game_events(&vec![up, up_release]),
        Some(KeyboardEvent::Stop)
    );
    assert_eq!(
        handle_game_events(&vec![up, GameEvent::Other]),
        Some(KeyboardEvent::MoveInDirection(Direction::Up))
    );
}

#[test]
fn events_quit_and_escape_end_the_loop() {
    assert_eq!(
        handle_game_events(&vec![GameEvent::Quit]),
        Some(KeyboardEvent::Escape)
    );
    // Escape counts even on an auto-repeated press.
    assert_eq!(
        handle_game_events(&vec![GameEvent::KeyDown { key: Key::Escape, repeat: true }]),
        Some(KeyboardEvent::Escape)
    );
}

#[test]
fn events_ignore_auto_repeated_arrows() {
    assert_eq!(
        handle_game_events(&vec![GameEvent::KeyDown { key: Key::Up, repeat: true }]),
        None
    );
    assert_eq!(
        handle_game_events(&vec![GameEvent::KeyUp { key: Key::Up, repeat: true }]),
        None
    );
}

#[test]
fn render_snapshot_joins_box_and_sprite() {
    let mut world = World::new();
    let a = world.create_entity();
    world.insert_bounding_box(a, BoundingBox(Rect::from_center(1, 2, 3, 4)));
    world.insert_sprite(a, Sprite { texture_id: 0, region: Rect::new(0, 0, 8, 8) });
    let b = world.create_entity();
    world.insert_bounding_box(b, BoundingBox(Rect::from_center(5, 6, 7, 8)));
    let c = world.create_entity();
    world.insert_sprite(c, Sprite { texture_id: 1, region: Rect::new(0, 0, 8, 8) });
    let shot = render_snapshot(&world);
    assert_eq!(shot.len(), 1);
    assert_eq!(shot[0].0, BoundingBox(Rect::from_center(1, 2, 3, 4)));
    assert_eq!(shot[0].1.texture_id, 0);
}

#[test]
fn render_snapshot_skips_purged_entities() {
    let mut world = World::new();
    let a = world.create_entity();
    world.insert_bounding_box(a, BoundingBox(Rect::from_center(1, 2, 3, 4)));
    world.insert_sprite(a, Sprite { texture_id: 0, region: Rect::new(0, 0, 8, 8) });
    world.destroy(a);
    assert_eq!(render_snapshot(&world).len(), 1);
    world.maintain();
    assert_eq!(render_snapshot(&world).len(), 0);
}

#[test]
fn camera_follows_the_player_box() {
    let mut world = World::new();
    let a = world.create_entity();
    world.insert_bounding_box(a, BoundingBox(Rect::from_center(9, 9, 1, 1)));
    assert_eq!(player_bounding_box(&world), None);
    let p = world.create_entity();
    world.insert_player(p, minimal_game::components::Player { movement_speed: 200 });
    world.insert_bounding_box(p, BoundingBox(Rect::from_center(30, 40, 32, 58)));
    assert_eq!(
        player_bounding_box(&world),
        Some(BoundingBox(Rect::from_center(30, 40, 32, 58)))
    );
}

#[test]
fn screen_rect_centers_the_world_on_the_camera() {
    let bounds = BoundingBox(Rect::from_center(10, 20, 32, 58));
    let camera = Point { x: 10, y: 20 };
    let region = Rect::new(0, 0, 52, 72);
    let r = screen_rect(&bounds, camera, 800, 600, region);
    // The entity under the camera lands in the middle of the screen.
    assert_eq!(r.center(), Point { x: 400, y: 300 });
    assert_eq!((r.width, r.height), (52, 72));
    // An entity east of the camera lands east of the middle.
    let east = BoundingBox(Rect::from_center(110, 20, 32, 58));
    let r = screen_rect(&east, camera, 800, 600, region);
    assert_eq!(r.center(), Point { x: 500, y: 300 });
}
