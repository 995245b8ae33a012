use minimal_game::animator::Animator;
use minimal_game::components::{BoundingBox, Enemy, Player, Velocity};
use minimal_game::direction::Direction;
use minimal_game::dispatcher::{
    update_world, DispatchError, Dispatcher, DispatcherBuilder, SystemKind,
};
use minimal_game::geometry::Rect;
use minimal_game::movement::Movement;
use minimal_game::resources::{GameStatus, KeyboardEvent, TimeDelta};
use minimal_game::world::World;
use minimal_game::ai::resolve_direction;

fn movement() -> Movement {
    Movement { world_bounds: Rect::from_center(0, 0, 900, 900) }
}

fn declared_graph(keyboard_first: bool) -> Dispatcher {
    let builder = DispatcherBuilder::new();
    let builder = if keyboard_first {
        builder
            .with(SystemKind::Keyboard, "Keyboard".to_string(), vec![])
            .with(SystemKind::Ai, "AI".to_string(), vec![])
    } else {
        builder
            .with(SystemKind::Ai, "AI".to_string(), vec![])
            .with(SystemKind::Keyboard, "Keyboard".to_string(), vec![])
    };
    builder
        .with(
            SystemKind::Movement(movement()),
            "Movement".to_string(),
            vec!["Keyboard".to_string(), "AI".to_string()],
        )
        .with(
            SystemKind::Animator,
            "Animator".to_string(),
            vec!["Keyboard".to_string(), "AI".to_string()],
        )
        .build()
        .expect("the declared graph is acyclic")
}

#[test]
fn build_rejects_duplicate_names() {
    let r = DispatcherBuilder::new()
        .with(SystemKind::Keyboard, "Keyboard".to_string(), vec![])
        .with(SystemKind::Ai, "Keyboard".to_string(), vec![])
        .build();
    assert!(matches!(r, Err(DispatchError::DuplicateName)));
}

#[test]
fn build_rejects_unknown_dependency() {
    let r = DispatcherBuilder::new()
        .with(SystemKind::Keyboard, "Keyboard".to_string(), vec!["Ghost".to_string()])
        .build();
    assert!(matches!(r, Err(DispatchError::UnknownDependency)));
}

#[test]
fn build_rejects_cycles() {
    let r = DispatcherBuilder::new()
        .with(SystemKind::Keyboard, "A".to_string(), vec!["B".to_string()])
        .with(SystemKind::Ai, "B".to_string(), vec!["A".to_string()])
        .build();
    assert!(matches!(r, Err(DispatchError::Cycle)));
}

#[test]
fn build_rejects_self_dependency() {
    let r = DispatcherBuilder::new()
        .with(SystemKind::Keyboard, "A".to_string(), vec!["A".to_string()])
        .build();
    assert!(matches!(r, Err(DispatchError::Cycle)));
}

#[test]
fn build_accepts_the_declared_graph() {
    declared_graph(true);
    declared_graph(false);
}

/// A deterministic world: a player and a stationary marker, no enemies, so
/// no random draw is consumed and two runs can be compared exactly.
fn deterministic_world() -> World {
    let mut world = World::new();
    let p = world.create_entity();
    world.insert_player(p, Player { movement_speed: 200 });
    world.insert_velocity(p, Velocity { speed: 0, direction: Direction::Down });
    world.insert_bounding_box(p, BoundingBox(Rect::from_center(0, 250, 32, 58)));
    let w = world.create_entity();
    world.insert_bounding_box(w, BoundingBox(Rect::from_center(100, 100, 10, 10)));
    world.set_keyboard_event(Some(KeyboardEvent::MoveInDirection(Direction::Right)));
    world
}

fn snapshot(world: &World) -> Vec<(bool, Option<Velocity>, Option<BoundingBox>)> {
    let mut out = Vec::new();
    for e in 0..world.entity_count() {
        out.push((
            world.is_alive(e),
            world.get_velocity(e).copied(),
            world.get_bounding_box(e).copied(),
        ));
    }
    out
}

#[test]
fn schedule_order_does_not_change_the_outcome() {
    // Keyboard, AI registered in either order; both schedules respect the
    // declared edges, so both frames must agree exactly.
    let mut world_a = deterministic_world();
    let mut world_b = deterministic_world();
    let keyboard_first = declared_graph(true);
    let ai_first = declared_graph(false);
    assert!(update_world(&mut world_a, &keyboard_first, TimeDelta(16667), 16667));
    assert!(update_world(&mut world_b, &ai_first, TimeDelta(16667), 16667));
    assert_eq!(snapshot(&world_a), snapshot(&world_b));
    // The keyboard event took effect and the movement system used it.
    let v = world_a.get_velocity(0).unwrap();
    assert_eq!((v.speed, v.direction), (200, Direction::Right));
    assert_eq!(world_a.get_bounding_box(0).unwrap().0.center().x, 3);
}

#[test]
fn update_world_reports_game_status() {
    let dispatcher = declared_graph(true);
    let mut world = deterministic_world();
    assert!(update_world(&mut world, &dispatcher, TimeDelta(16667), 16667));
    world.set_game_status(GameStatus::Win);
    assert!(!update_world(&mut world, &dispatcher, TimeDelta(16667), 33334));
    assert_eq!(world.game_status(), GameStatus::Win);
}

#[test]
fn a_frame_on_an_empty_world_is_harmless() {
    let dispatcher = declared_graph(true);
    let mut world = World::new();
    assert!(update_world(&mut world, &dispatcher, TimeDelta(16667), 16667));
    assert_eq!(world.entity_count(), 0);
}

#[test]
fn update_world_installs_the_time_delta() {
    let dispatcher = declared_graph(true);
    let mut world = deterministic_world();
    update_world(&mut world, &dispatcher, TimeDelta(16667), 16667);
    assert_eq!(world.time_delta(), TimeDelta(16667));
}

#[test]
fn deferred_destruction_is_visible_until_maintain() {
    let mut world = World::new();
    let e = world.create_entity();
    world.insert_velocity(e, Velocity { speed: 200, direction: Direction::Right });
    world.insert_bounding_box(e, BoundingBox(Rect::from_center(0, 0, 10, 10)));
    world.set_time_delta(TimeDelta(16667));
    world.destroy(e);
    // Still fully readable and joinable by systems scheduled later in the
    // same frame: movement moves the doomed entity as usual.
    assert!(world.is_alive(e));
    assert!(world.get_velocity(e).is_some());
    movement().run(&mut world);
    assert_eq!(world.get_bounding_box(e).unwrap().0.center().x, 3);
    // Fully absent in the next frame.
    world.maintain();
    assert!(!world.is_alive(e));
    assert!(world.get_velocity(e).is_none());
    assert!(world.get_bounding_box(e).is_none());
}

#[test]
fn destruction_within_a_dispatched_frame() {
    let dispatcher = declared_graph(true);
    let mut world = deterministic_world();
    world.destroy(0);
    assert!(update_world(&mut world, &dispatcher, TimeDelta(16667), 16667));
    // update_world ends at the maintenance point, so the entity is gone.
    assert!(!world.is_alive(0));
    assert!(world.get_player(0).is_none());
    assert!(world.get_velocity(0).is_none());
    // Identifiers are not reused; the other entity is untouched.
    assert!(world.is_alive(1));
    assert!(world.get_bounding_box(1).is_some());
}

#[test]
fn ai_keeps_enemy_speed_and_respects_delay() {
    let mut world = World::new();
    let e = world.create_entity();
    world.insert_enemy(e, Enemy { direction_timer: 0, direction_change_delay: 200_000 });
    world.insert_velocity(e, Velocity { speed: 200, direction: Direction::Up });
    // Delay not yet elapsed: nothing changes, the timer included.
    minimal_game::ai::AI::run(&mut world, 100_000);
    let en = *world.get_enemy(e).unwrap();
    let v = *world.get_velocity(e).unwrap();
    assert_eq!(en.direction_timer, 0);
    assert_eq!((v.speed, v.direction), (200, Direction::Up));
    // Elapsed: the timer resets to now and the speed is never modified.
    minimal_game::ai::AI::run(&mut world, 250_000);
    let en = *world.get_enemy(e).unwrap();
    let v = *world.get_velocity(e).unwrap();
    assert_eq!(en.direction_timer, 250_000);
    assert_eq!(v.speed, 200);
}

#[test]
fn ai_direction_distribution_matches_the_buckets() {
    // With a zero delay the enemy re-decides every run.  Over many draws the
    // direction stays put about 70% of the time (60% explicit persistence
    // plus the 10% bucket of the current direction) and lands on each other
    // direction about 10% of the time.
    let mut world = World::new();
    let e = world.create_entity();
    world.insert_enemy(e, Enemy { direction_timer: 0, direction_change_delay: 0 });
    world.insert_velocity(e, Velocity { speed: 200, direction: Direction::Up });
    let runs: u64 = 20_000;
    let mut stayed: u64 = 0;
    let mut landed = [0u64; 4];
    let mut prev = Direction::Up;
    for t in 1..=runs {
        minimal_game::ai::AI::run(&mut world, t);
        let d = world.get_velocity(e).unwrap().direction;
        if d == prev {
            stayed += 1;
        }
        landed[match d {
            Direction::Up => 0,
            Direction::Down => 1,
            Direction::Left => 2,
            Direction::Right => 3,
        }] += 1;
        prev = d;
    }
    let stay_rate = stayed as f64 / runs as f64;
    assert!((stay_rate - 0.70).abs() < 0.03, "stay rate {stay_rate}");
    for count in landed {
        let rate = count as f64 / runs as f64;
        assert!((rate - 0.25).abs() < 0.03, "landing rate {rate}");
    }
}

#[test]
fn resolve_direction_buckets_are_exact() {
    let mut counts = [0u32; 4];
    for draw in 1..=100u8 {
        counts[match resolve_direction(Direction::Up, draw) {
            Direction::Up => 0,
            Direction::Down => 1,
            Direction::Left => 2,
            Direction::Right => 3,
        }] += 1;
    }
    // Current direction kept on 1..=60 plus its own bucket 61..=70.
    assert_eq!(counts, [70, 10, 10, 10]);
    assert_eq!(resolve_direction(Direction::Left, 60), Direction::Left);
    assert_eq!(resolve_direction(Direction::Left, 61), Direction::Up);
    assert_eq!(resolve_direction(Direction::Left, 71), Direction::Down);
    assert_eq!(resolve_direction(Direction::Left, 81), Direction::Left);
    assert_eq!(resolve_direction(Direction::Left, 91), Direction::Right);
    assert_eq!(resolve_direction(Direction::Left, 100), Direction::Right);
}
