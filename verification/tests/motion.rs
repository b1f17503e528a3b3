use asteroid_sim::asteroids::Asteroid;
use asteroid_sim::collisions::Collider;
use asteroid_sim::fixed::Vec2;
use asteroid_sim::movement::{drifted, Acceleration, MovingObjectBundle, Velocity};
use asteroid_sim::player::Player;
use asteroid_sim::world::{Entity, EntityKind, Transform, World};

fn moving(x: i64, y: i64, vx: i64, vy: i64, ax: i64, ay: i64) -> MovingObjectBundle {
    MovingObjectBundle {
        velocity: Velocity::new(Vec2::new(vx, vy)),
        acceleration: Acceleration::new(Vec2::new(ax, ay)),
        collider: Collider::new(1_000),
        transform: Transform { translation: Vec2::new(x, y), rotation: 17, scale: 1_000 },
    }
}

fn rock(world: &mut World, bundle: MovingObjectBundle) -> Entity {
    world.spawn(EntityKind::Asteroid(Asteroid { size: 0 }), bundle).unwrap()
}

#[test]
fn constructors_keep_their_argument() {
    assert_eq!(Velocity::new(Vec2::new(1, -2)).value, Vec2::new(1, -2));
    assert_eq!(Acceleration::new(Vec2::new(-3, 4)).value, Vec2::new(-3, 4));
}

#[test]
fn velocity_takes_up_acceleration() {
    let mut world = World::new();
    let a = rock(&mut world, moving(0, 0, 100, -100, 5, 7));
    let b = rock(&mut world, moving(0, 0, i64::MAX, i64::MIN, 1, -1));
    world.update_velocity();
    world.update_velocity();
    let first = world.get(a).unwrap();
    assert_eq!(first.velocity.value, Vec2::new(110, -86));
    assert_eq!(first.acceleration.value, Vec2::new(5, 7));
    assert_eq!(first.transform.translation, Vec2::new(0, 0));
    assert_eq!(world.get(b).unwrap().velocity.value, Vec2::new(i64::MAX, i64::MIN));
}

#[test]
fn position_takes_up_velocity_times_the_frame() {
    let mut world = World::new();
    let a = rock(&mut world, moving(1_000, 2_000, 500_000, -250_000, 9, 9));
    world.update_position(16_000_000, false);
    let moved = world.get(a).unwrap();
    assert_eq!(moved.transform.translation, Vec2::new(9_000, -2_000));
    assert_eq!(moved.velocity.value, Vec2::new(500_000, -250_000));
    assert_eq!(moved.transform.rotation, 17);
    world.update_position(0, true);
    assert_eq!(world.get(a).unwrap().transform.translation, Vec2::new(9_000, -2_000));
}

#[test]
fn only_the_coasting_ship_slows_down() {
    let mut world = World::new();
    let ship = world.spawn(EntityKind::Player(Player::new()), moving(0, 0, 1_000, -1_000, 0, 0)).unwrap();
    let hazard = rock(&mut world, moving(0, 0, 1_000, -1_000, 0, 0));
    world.update_position(500_000_000, true);
    // factor 1 - 0.9 * 0.5
    assert_eq!(world.get(ship).unwrap().velocity.value, Vec2::new(550, -550));
    assert_eq!(world.get(ship).unwrap().transform.translation, Vec2::new(275, -275));
    assert_eq!(world.get(hazard).unwrap().velocity.value, Vec2::new(1_000, -1_000));
    assert_eq!(world.get(hazard).unwrap().transform.translation, Vec2::new(500, -500));
    world.update_position(500_000_000, false);
    assert_eq!(world.get(ship).unwrap().velocity.value, Vec2::new(550, -550));
    assert_eq!(world.get(ship).unwrap().transform.translation, Vec2::new(550, -550));
}

#[test]
fn drift_at_sixty_frames_a_second() {
    let mut world = World::new();
    let ship = world.spawn(EntityKind::Player(Player::new()), moving(0, 0, 100_000, 0, 0, 0)).unwrap();
    world.update_position(16_666_667, true);
    // 100 000 * (1 - 0.9 * 0.016666667) = 98 499.99997
    assert_eq!(world.get(ship).unwrap().velocity.value, Vec2::new(98_499, 0));
    // 98 499 * 0.016666667 = 1 641.65
    assert_eq!(world.get(ship).unwrap().transform.translation, Vec2::new(1_641, 0));
}

#[test]
fn a_long_frame_turns_the_coasting_ship_round() {
    let mut world = World::new();
    let ship = world.spawn(EntityKind::Player(Player::new()), moving(0, 0, 900, 0, 0, 0)).unwrap();
    // factor 1 - 0.9 * 2 = -0.8
    world.update_position(2_000_000_000, true);
    assert_eq!(world.get(ship).unwrap().velocity.value, Vec2::new(-720, 0));
    assert_eq!(world.get(ship).unwrap().transform.translation, Vec2::new(-1_440, 0));
}

#[test]
fn positions_saturate() {
    let mut world = World::new();
    let a = rock(&mut world, moving(i64::MAX - 5, i64::MIN + 5, 1_000, -1_000, 0, 0));
    world.update_position(u64::MAX, false);
    assert_eq!(world.get(a).unwrap().transform.translation, Vec2::new(i64::MAX, i64::MIN));
}

#[test]
fn drift_is_exact_for_frames_of_any_length() {
    assert_eq!(drifted(1_000, 0), 1_000);
    assert_eq!(drifted(1_000, 500_000_000), 550);
    assert_eq!(drifted(-1_000, 500_000_000), -550);
    // ten ninths of a second: the factor is zero
    assert_eq!(drifted(1_000, 1_111_111_111), 0);
    assert_eq!(drifted(-7, 1_111_111_112), 0);
    // factor 1 - 0.9 * 5 = -3.5
    assert_eq!(drifted(1_000, 5_000_000_000), -3_500);
    assert_eq!(drifted(-1_000, 5_000_000_000), 3_500);
    // 3 * (1 - 0.9 * 0.7) = 1.11
    assert_eq!(drifted(3, 700_000_000), 1);
    assert_eq!(drifted(-3, 700_000_000), -1);
    // the longest frame: factor 1 - 0.9 * 18 446 744 073.709551615
    assert_eq!(drifted(1, u64::MAX), -16_602_069_665);
    assert_eq!(drifted(-1, u64::MAX), 16_602_069_665);
    assert_eq!(drifted(1_000, u64::MAX), -16_602_069_665_338);
    assert_eq!(drifted(i64::MAX, u64::MAX), i64::MIN);
    assert_eq!(drifted(i64::MIN, u64::MAX), i64::MAX);
    assert_eq!(drifted(i64::MAX, 0), i64::MAX);
    assert_eq!(drifted(i64::MIN, 0), i64::MIN);
}

#[test]
fn a_frame_of_many_seconds_moves_objects_as_far() {
    let mut world = World::new();
    let a = rock(&mut world, moving(0, 0, 2_000, -3_000, 0, 0));
    // ten seconds, more than fits in 32 bits of nanoseconds
    world.update_position(10_000_000_000, false);
    assert_eq!(world.get(a).unwrap().transform.translation, Vec2::new(20_000, -30_000));
}
