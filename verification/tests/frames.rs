use asteroid_sim::asteroids::{Asteroid, SpawnDraw};
use asteroid_sim::collisions::Collider;
use asteroid_sim::fixed::Vec2;
use asteroid_sim::movement::{Acceleration, MovingObjectBundle, Velocity};
use asteroid_sim::player::{Bearings, Controls, PlayerBullet};
use asteroid_sim::schedules::InGameSet;
use asteroid_sim::simulation::{FrameInput, Simulation, TickReport};
use asteroid_sim::state::{AppState, SimState};
use asteroid_sim::world::{Entity, EntityKind, Transform, Viewport};

const WINDOW: Viewport = Viewport { width: 1_280_000, height: 720_000 };
const SECOND: u64 = 1_000_000_000;
const CORNER: SpawnDraw = SpawnDraw { size: 2, position: Vec2 { x: 100_000, y: 100_000 } };
const QUIET: TickReport = TickReport { entered: None, score_changed: None, lives_changed: None, game_over: false };

fn frame(delta_nanos: u64) -> FrameInput {
    FrameInput {
        delta_nanos,
        controls: Controls::idle(),
        bearings: Bearings { ahead: Vec2::new(0, 1_000), left: Vec2::new(-1_000, 0), right: Vec2::new(1_000, 0) },
        viewport: WINDOW,
    }
}

fn firing(delta_nanos: u64) -> FrameInput {
    let mut input = frame(delta_nanos);
    input.controls.fire = true;
    input
}

fn bundle(x: i64, y: i64, radius: i64) -> MovingObjectBundle {
    MovingObjectBundle {
        velocity: Velocity::new(Vec2::new(0, 0)),
        acceleration: Acceleration::new(Vec2::new(0, 0)),
        collider: Collider::new(radius),
        transform: Transform { translation: Vec2::new(x, y), rotation: 0, scale: 1_000 },
    }
}

fn rock(sim: &mut Simulation, size: usize, x: i64, y: i64) -> Entity {
    sim.spawn(EntityKind::Asteroid(Asteroid { size }), bundle(x, y, 16_000 * (size as i64 + 1))).unwrap()
}

fn running(spawn_nanos: u64) -> Simulation {
    let mut sim = Simulation::with_intervals(spawn_nanos, 150_000_000);
    sim.request_state(AppState::InGame);
    let report = sim.tick_with(frame(0), CORNER);
    assert_eq!(report.entered, Some(AppState::InGame));
    sim
}

fn count(sim: &Simulation, wanted: fn(&EntityKind) -> bool) -> usize {
    (0..sim.world().len()).filter(|&i| wanted(&sim.world().object(i).kind)).count()
}

#[test]
fn states_begin_in_menu_and_in_game() {
    assert_eq!(AppState::default(), AppState::Menu);
    assert_eq!(SimState::default(), SimState::InGame);
}

#[test]
fn nothing_runs_in_the_menu() {
    let mut sim = Simulation::new();
    assert_eq!(sim.state(), AppState::Menu);
    assert_eq!(sim.next_state(), None);
    rock(&mut sim, 0, 5_000_000, 5_000_000);
    rock(&mut sim, 0, 0, 0);
    sim.spawn(EntityKind::PlayerBullet(PlayerBullet), bundle(0, 0, 5_000)).unwrap();
    for _ in 0..20 {
        assert_eq!(sim.tick_with(firing(SECOND), CORNER), QUIET);
    }
    assert_eq!(sim.state(), AppState::Menu);
    assert_eq!(sim.world().len(), 3);
    assert!(sim.world().object(1).collider.colliding_entities.is_empty());
    assert!(!sim.spawn_timer_finished());
    assert!(!sim.shot_timer_finished());
}

#[test]
fn request_for_the_state_that_holds_is_dropped() {
    let mut sim = Simulation::new();
    sim.request_state(AppState::Menu);
    assert_eq!(sim.next_state(), Some(AppState::Menu));
    assert_eq!(sim.tick_with(frame(SECOND), CORNER), QUIET);
    assert_eq!(sim.next_state(), None);
    let mut game = running(10 * SECOND);
    let ship = game.world().object(0).id;
    game.request_state(AppState::InGame);
    assert_eq!(game.tick_with(frame(0), CORNER), QUIET);
    assert_eq!(game.world().object(0).id, ship);
    assert_eq!(game.world().len(), 1);
}

#[test]
fn entering_the_game_puts_the_ship_into_the_middle() {
    let mut sim = Simulation::new();
    rock(&mut sim, 0, 0, 0);
    sim.request_state(AppState::InGame);
    let report = sim.tick_with(frame(0), CORNER);
    assert_eq!(
        report,
        TickReport {
            entered: Some(AppState::InGame),
            score_changed: Some(0),
            lives_changed: Some(3),
            game_over: false,
        }
    );
    assert_eq!(sim.state(), AppState::InGame);
    assert_eq!(sim.world().len(), 1);
    let ship = sim.world().object(0);
    assert!(ship.kind.is_player());
    assert_eq!(ship.id, Entity(1));
    assert_eq!(ship.transform.translation, Vec2::new(640_000, 360_000));
    assert_eq!(sim.world().player().unwrap().player_data.lives, 3);
}

#[test]
fn hazard_spawns_when_five_seconds_have_passed() {
    let mut sim = running(5 * SECOND);
    for _ in 0..4 {
        assert_eq!(sim.tick_with(frame(SECOND), CORNER), QUIET);
        assert_eq!(sim.world().len(), 1);
        assert!(!sim.spawn_timer_finished());
    }
    assert_eq!(sim.tick_with(frame(SECOND), CORNER), QUIET);
    assert!(sim.spawn_timer_finished());
    assert_eq!(sim.world().len(), 2);
    assert_eq!(count(&sim, EntityKind::is_asteroid), 1);
    let hazard = sim.world().object(1);
    assert_eq!(hazard.id, Entity(1));
    assert_eq!(hazard.kind, EntityKind::Asteroid(Asteroid { size: 2 }));
    assert_eq!(hazard.transform, Transform { translation: Vec2::new(100_000, 100_000), rotation: 0, scale: 750 });
    assert_eq!(hazard.collider.radius, 48_000);
    assert_eq!(hazard.velocity.value, Vec2::new(0, 0));
    sim.tick_with(frame(SECOND), CORNER);
    assert_eq!(sim.world().len(), 2);
    assert!(!sim.spawn_timer_finished());
}

#[test]
fn one_hazard_for_a_frame_of_many_intervals() {
    let mut sim = running(SECOND);
    sim.tick_with(frame(4 * SECOND), CORNER);
    assert_eq!(count(&sim, EntityKind::is_asteroid), 1);
}

#[test]
fn random_frames_spawn_in_the_window() {
    let mut sim = running(SECOND);
    for k in 0..20 {
        let (_, draw) = sim.tick(frame(SECOND));
        assert!(draw.size < 4);
        assert!(draw.position.x < 1_280_000 && draw.position.y < 720_000);
        let spawned = sim.world().get(Entity(k + 1));
        if let Some(hazard) = spawned {
            assert_eq!(hazard.kind, EntityKind::Asteroid(Asteroid { size: draw.size }));
            assert_eq!(hazard.transform.translation, draw.position);
        }
        assert!(sim.state() == AppState::InGame);
    }
}

#[test]
fn firing_twice_within_the_interval_makes_one_bullet() {
    let mut sim = running(10 * SECOND);
    sim.tick_with(firing(10_000_000), CORNER);
    assert_eq!(count(&sim, EntityKind::is_player_bullet), 1);
    sim.tick_with(firing(10_000_000), CORNER);
    assert_eq!(count(&sim, EntityKind::is_player_bullet), 1);
    assert!(!sim.shot_timer_finished());
    sim.tick_with(frame(130_000_000), CORNER);
    assert!(sim.shot_timer_finished());
    assert_eq!(count(&sim, EntityKind::is_player_bullet), 1);
    sim.tick_with(firing(10_000_000), CORNER);
    assert_eq!(count(&sim, EntityKind::is_player_bullet), 2);
    assert_eq!(sim.world().player().unwrap().player_data.stats.shots_fired, 2);
}

#[test]
fn bullet_moves_in_the_frame_it_was_fired_in() {
    let mut sim = running(10 * SECOND);
    sim.tick_with(firing(10_000_000), CORNER);
    let bullet = sim.world().object(1);
    assert!(bullet.kind.is_player_bullet());
    // 15 ahead of the ship, then 500 px/s for 10 ms
    assert_eq!(bullet.transform.translation, Vec2::new(640_000, 380_000));
    assert_eq!(bullet.velocity.value, Vec2::new(0, 500_000));
}

#[test]
fn shot_follows_the_turn_of_the_frame() {
    let mut sim = running(10 * SECOND);
    let mut input = firing(0);
    input.controls.rotate_right = true;
    input.controls.rotate_left = true;
    sim.tick_with(input, CORNER);
    assert_eq!(sim.world().object(1).velocity.value, Vec2::new(500_000, 0));
    assert_eq!(sim.world().object(1).transform.translation, Vec2::new(655_000, 360_000));
}

#[test]
fn thrust_moves_the_ship_in_the_same_frame() {
    let mut sim = running(10 * SECOND);
    let mut input = frame(500_000_000);
    input.controls.thrust_forward = true;
    input.controls.rotate_left = true;
    sim.tick_with(input, CORNER);
    let ship = sim.world().object(0);
    // 200 px/s^2 for half a second along the heading at the frame's start
    assert_eq!(ship.acceleration.value, Vec2::new(0, 100_000));
    assert_eq!(ship.velocity.value, Vec2::new(0, 100_000));
    assert_eq!(ship.transform.translation, Vec2::new(640_000, 410_000));
    assert_eq!(ship.transform.rotation, 2_000);
    sim.tick_with(frame(500_000_000), CORNER);
    let ship = sim.world().object(0);
    assert_eq!(ship.acceleration.value, Vec2::new(0, 0));
    assert_eq!(ship.velocity.value, Vec2::new(0, 55_000));
    assert_eq!(ship.transform.translation, Vec2::new(640_000, 437_500));
}

#[test]
fn hazard_and_bullet_that_meet_are_gone_in_the_same_frame() {
    let mut sim = running(10 * SECOND);
    let hazard = rock(&mut sim, 2, 100_000, 100_000);
    let bullet = sim.spawn(EntityKind::PlayerBullet(PlayerBullet), bundle(150_000, 100_000, 5_000)).unwrap();
    let other = rock(&mut sim, 0, 1_000_000, 100_000);
    let report = sim.tick_with(frame(0), CORNER);
    assert_eq!(
        report,
        TickReport { entered: None, score_changed: Some(100), lives_changed: None, game_over: false }
    );
    assert!(sim.world().get(hazard).is_none());
    assert!(sim.world().get(bullet).is_none());
    assert!(sim.world().get(other).is_some());
    let player = sim.world().player().unwrap();
    assert_eq!(player.player_data.stats.score, 100);
    assert_eq!(player.player_data.stats.asteroids_destroyed, 1);
    assert_eq!(sim.tick_with(frame(0), CORNER), QUIET);
    assert_eq!(sim.world().len(), 2);
    for i in 0..sim.world().len() {
        assert!(sim.world().object(i).collider.colliding_entities.is_empty());
    }
}

#[test]
fn hazards_that_meet_stay() {
    let mut sim = running(10 * SECOND);
    let a = rock(&mut sim, 1, 100_000, 100_000);
    let b = rock(&mut sim, 1, 110_000, 100_000);
    for _ in 0..3 {
        assert_eq!(sim.tick_with(frame(16_000_000), CORNER), QUIET);
    }
    assert_eq!(sim.world().get(a).unwrap().collider.colliding_entities, vec![b]);
    assert_eq!(sim.world().get(b).unwrap().collider.colliding_entities, vec![a]);
    assert_eq!(sim.world().player().unwrap().player_data.stats.score, 0);
    assert_eq!(sim.world().len(), 3);
}

#[test]
fn strayed_object_is_gone_after_the_frame() {
    let mut sim = running(10 * SECOND);
    let at = rock(&mut sim, 0, 640_000, 360_000 + 750_000);
    let past = rock(&mut sim, 0, 640_000, 360_000 + 750_001);
    sim.tick_with(frame(0), CORNER);
    assert!(sim.world().get(at).is_some());
    assert!(sim.world().get(past).is_none());
}

#[test]
fn crashes_end_the_game_and_the_menu_clears_the_store() {
    let mut sim = running(10 * SECOND);
    rock(&mut sim, 0, 640_000, 390_000);
    let report = sim.tick_with(frame(0), CORNER);
    assert_eq!(
        report,
        TickReport { entered: None, score_changed: Some(50), lives_changed: Some(2), game_over: false }
    );
    rock(&mut sim, 0, 640_000, 390_000);
    let report = sim.tick_with(frame(0), CORNER);
    assert_eq!(
        report,
        TickReport { entered: None, score_changed: Some(100), lives_changed: Some(1), game_over: false }
    );
    let last = rock(&mut sim, 0, 640_000, 390_000);
    let report = sim.tick_with(frame(0), CORNER);
    assert_eq!(report, TickReport { entered: None, score_changed: None, lives_changed: None, game_over: true });
    assert_eq!(sim.state(), AppState::InGame);
    assert_eq!(sim.next_state(), Some(AppState::Menu));
    let player = sim.world().player().unwrap();
    assert_eq!(player.player_data.lives, 1);
    assert_eq!(player.player_data.stats.score, 100);
    assert_eq!(player.player_data.stats.asteroids_destroyed, 2);
    assert!(sim.world().get(last).is_some());
    let report = sim.tick_with(firing(SECOND), CORNER);
    assert_eq!(
        report,
        TickReport { entered: Some(AppState::Menu), score_changed: None, lives_changed: None, game_over: false }
    );
    assert_eq!(sim.state(), AppState::Menu);
    assert_eq!(sim.world().len(), 0);
    sim.request_state(AppState::InGame);
    let report = sim.tick_with(frame(0), CORNER);
    assert_eq!(report.score_changed, Some(0));
    assert_eq!(report.lives_changed, Some(3));
    assert_eq!(sim.world().len(), 1);
    assert!(!sim.spawn_timer_finished());
}

#[test]
fn score_never_goes_down_while_the_game_runs() {
    let mut sim = running(SECOND);
    let mut score = 0;
    let mut destroyed = 0;
    for k in 0..60u32 {
        let mut input = frame(100_000_000);
        input.controls.fire = k % 2 == 0;
        input.controls.thrust_forward = k % 3 == 0;
        input.controls.rotate_left = k % 5 == 0;
        let draw = SpawnDraw { size: (k % 4) as usize, position: Vec2::new(640_000, 360_000 + 60_000) };
        sim.tick_with(input, draw);
        if let Some(player) = sim.world().player() {
            assert!(player.player_data.stats.score >= score);
            assert!(player.player_data.stats.asteroids_destroyed >= destroyed);
            assert!(player.player_data.lives >= 1);
            score = player.player_data.stats.score;
            destroyed = player.player_data.stats.asteroids_destroyed;
        }
    }
    assert!(score > 0);
}

#[test]
fn phases_follow_each_other() {
    let mut order = vec![InGameSet::first()];
    while let Some(next) = order.last().unwrap().next() {
        order.push(next);
    }
    assert_eq!(
        order,
        vec![
            InGameSet::DespawnEntities,
            InGameSet::UserInput,
            InGameSet::EntityUpdates,
            InGameSet::CollisionDetection,
            InGameSet::Resolution,
        ]
    );
}
