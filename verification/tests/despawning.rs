use asteroid_sim::asteroids::Asteroid;
use asteroid_sim::bullets::Bullet;
use asteroid_sim::collisions::Collider;
use asteroid_sim::fixed::Vec2;
use asteroid_sim::movement::{Acceleration, MovingObjectBundle, Velocity};
use asteroid_sim::player::{Player, PlayerBullet};
use asteroid_sim::world::{Entity, EntityKind, Transform, Viewport, World};

const WINDOW: Viewport = Viewport { width: 1_280_000, height: 720_000 };

fn bundle(x: i64, y: i64) -> MovingObjectBundle {
    MovingObjectBundle {
        velocity: Velocity::new(Vec2::new(0, 0)),
        acceleration: Acceleration::new(Vec2::new(0, 0)),
        collider: Collider::new(1_000),
        transform: Transform { translation: Vec2::new(x, y), rotation: 0, scale: 1_000 },
    }
}

fn rock(world: &mut World, x: i64, y: i64) -> Entity {
    world.spawn(EntityKind::Asteroid(Asteroid { size: 0 }), bundle(x, y)).unwrap()
}

#[test]
fn middle_of_the_window() {
    assert_eq!(WINDOW.center(), Vec2::new(640_000, 360_000));
    assert_eq!(Viewport { width: 1_280_001, height: 3 }.center(), Vec2::new(640_000, 1));
    assert_eq!(Viewport { width: 0, height: u32::MAX }.center(), Vec2::new(0, 2_147_483_647));
}

#[test]
fn object_at_the_boundary_stays_and_beyond_it_goes() {
    let mut world = World::new();
    let at = rock(&mut world, 640_000 + 750_000, 360_000);
    let past = rock(&mut world, 640_000 + 750_001, 360_000);
    let slanted_at = rock(&mut world, 640_000 - 450_000, 360_000 + 600_000);
    let slanted_past = rock(&mut world, 640_000 - 450_000, 360_000 + 600_001);
    let inside = rock(&mut world, 0, 0);
    world.despawn_far_entities(WINDOW);
    assert!(world.get(at).is_some());
    assert!(world.get(past).is_none());
    assert!(world.get(slanted_at).is_some());
    assert!(world.get(slanted_past).is_none());
    assert!(world.get(inside).is_some());
    assert_eq!(world.len(), 3);
}

#[test]
fn second_pass_removes_nothing_more() {
    let mut world = World::new();
    rock(&mut world, 640_000, 360_000 - 750_000);
    rock(&mut world, 640_000, 360_000 - 750_001);
    rock(&mut world, 5_000_000, 5_000_000);
    world.despawn_far_entities(WINDOW);
    assert_eq!(world.len(), 1);
    world.despawn_far_entities(WINDOW);
    assert_eq!(world.len(), 1);
}

#[test]
fn every_kind_is_removed_when_it_strays() {
    let mut world = World::new();
    world.spawn(EntityKind::Player(Player::new()), bundle(-2_000_000, 0)).unwrap();
    world.spawn(EntityKind::PlayerBullet(PlayerBullet), bundle(0, 3_000_000)).unwrap();
    world.spawn(EntityKind::Bullet(Bullet { direction: Vec2::new(1_000, 0) }), bundle(i64::MAX, i64::MIN)).unwrap();
    world.despawn_far_entities(WINDOW);
    assert_eq!(world.len(), 0);
    assert!(world.player().is_none());
}

#[test]
fn order_of_the_store_is_kept() {
    let mut world = World::new();
    let a = rock(&mut world, 0, 0);
    rock(&mut world, 9_000_000, 0);
    let c = rock(&mut world, 100, 100);
    rock(&mut world, 0, -9_000_000);
    let e = rock(&mut world, 200, 200);
    world.despawn_far_entities(WINDOW);
    assert_eq!(world.len(), 3);
    assert_eq!(world.object(0).id, a);
    assert_eq!(world.object(1).id, c);
    assert_eq!(world.object(2).id, e);
}

#[test]
fn free_bullets_fly_along_the_diagonal() {
    let mut world = World::new();
    let free = world.spawn(EntityKind::Bullet(Bullet { direction: Vec2::new(0, -1_000) }), bundle(10, 20)).unwrap();
    let fired = world.spawn(EntityKind::PlayerBullet(PlayerBullet), bundle(10, 20)).unwrap();
    world.update_bullets(500_000_000);
    assert_eq!(world.get(free).unwrap().transform.translation, Vec2::new(125_010, 125_020));
    assert_eq!(world.get(fired).unwrap().transform.translation, Vec2::new(10, 20));
    world.update_bullets(16_000_000);
    assert_eq!(world.get(free).unwrap().transform.translation, Vec2::new(129_010, 129_020));
}

#[test]
fn free_bullets_leave_by_the_margin() {
    let mut world = World::new();
    let free = |x: i64, y: i64| (EntityKind::Bullet(Bullet { direction: Vec2::new(0, 0) }), bundle(x, y));
    let (k, b) = free(-50_000, 0);
    let left_at = world.spawn(k, b).unwrap();
    let (k, b) = free(-50_001, 0);
    let left_past = world.spawn(k, b).unwrap();
    let (k, b) = free(1_330_000, 770_000);
    let corner_at = world.spawn(k, b).unwrap();
    let (k, b) = free(1_330_001, 0);
    let right_past = world.spawn(k, b).unwrap();
    let (k, b) = free(0, 770_001);
    let top_past = world.spawn(k, b).unwrap();
    let (k, b) = free(0, -50_001);
    let bottom_past = world.spawn(k, b).unwrap();
    let fired = world.spawn(EntityKind::PlayerBullet(PlayerBullet), bundle(-60_000, 0)).unwrap();
    let hazard = rock(&mut world, 0, 900_000);
    world.despawn_bullets(WINDOW);
    assert!(world.get(left_at).is_some());
    assert!(world.get(left_past).is_none());
    assert!(world.get(corner_at).is_some());
    assert!(world.get(right_past).is_none());
    assert!(world.get(top_past).is_none());
    assert!(world.get(bottom_past).is_none());
    assert!(world.get(fired).is_some());
    assert!(world.get(hazard).is_some());
}

#[test]
fn identifiers_are_not_given_out_again() {
    let mut world = World::new();
    let a = rock(&mut world, 0, 0);
    assert_eq!(a, Entity(0));
    assert!(world.despawn(a));
    assert!(!world.despawn(a));
    let b = rock(&mut world, 0, 0);
    assert_eq!(b, Entity(1));
    world.clear();
    assert_eq!(world.len(), 0);
    assert_eq!(rock(&mut world, 0, 0), Entity(2));
    assert_eq!(world.index_of(Entity(2)), Some(0));
    assert_eq!(world.index_of(Entity(0)), None);
}

#[test]
fn second_ship_is_refused() {
    let mut world = World::new();
    assert_eq!(world.find_player(), None);
    rock(&mut world, 0, 0);
    assert!(world.spawn(EntityKind::Player(Player::new()), bundle(0, 0)).is_some());
    assert_eq!(world.find_player(), Some(1));
    assert!(world.spawn(EntityKind::Player(Player::new()), bundle(0, 0)).is_none());
    assert_eq!(world.len(), 2);
    assert_eq!(rock(&mut world, 0, 0), Entity(2));
}
