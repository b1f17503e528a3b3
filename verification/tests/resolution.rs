use asteroid_sim::asteroids::Asteroid;
use asteroid_sim::collisions::Collider;
use asteroid_sim::fixed::Vec2;
use asteroid_sim::movement::{Acceleration, MovingObjectBundle, Velocity};
use asteroid_sim::player::{Player, PlayerBullet, PlayerData};
use asteroid_sim::resolution::list_contains;
use asteroid_sim::world::{Entity, EntityKind, Transform, World};

fn bundle(x: i64, y: i64, radius: i64) -> MovingObjectBundle {
    MovingObjectBundle {
        velocity: Velocity::new(Vec2::new(0, 0)),
        acceleration: Acceleration::new(Vec2::new(0, 0)),
        collider: Collider::new(radius),
        transform: Transform { translation: Vec2::new(x, y), rotation: 0, scale: 1_000 },
    }
}

fn rock(world: &mut World, size: usize, x: i64, y: i64) -> Entity {
    world.spawn(EntityKind::Asteroid(Asteroid { size }), bundle(x, y, 16_000 * (size as i64 + 1))).unwrap()
}

fn bullet(world: &mut World, x: i64, y: i64) -> Entity {
    world.spawn(EntityKind::PlayerBullet(PlayerBullet), bundle(x, y, 5_000)).unwrap()
}

fn ship(world: &mut World, lives: u32, score: u32, x: i64, y: i64) -> Entity {
    let fresh = Player::new();
    let mut data: PlayerData = fresh.player_data;
    data.lives = lives;
    data.stats.score = score;
    world.spawn(EntityKind::Player(Player { player_data: data, shield: None }), bundle(x, y, 20_000)).unwrap()
}

const FAR: i64 = 10_000_000;

#[test]
fn hazards_that_overlap_each_other_are_left_alone() {
    let mut world = World::new();
    ship(&mut world, 3, 0, FAR, FAR);
    let a = rock(&mut world, 1, 0, 0);
    let b = rock(&mut world, 1, 10_000, 0);
    world.collision_detection();
    assert_eq!(world.get(a).unwrap().collider.colliding_entities, vec![b]);
    assert_eq!(world.get(b).unwrap().collider.colliding_entities, vec![a]);
    let doomed = world.handle_asteroid_collisions();
    assert!(doomed.is_empty());
    let crash = world.handle_player_collisions();
    assert!(crash.doomed.is_empty());
    assert!(!crash.game_over);
    world.despawn_all(&doomed);
    world.despawn_all(&crash.doomed);
    assert_eq!(world.len(), 3);
    let player = world.player().unwrap();
    assert_eq!(player.player_data.stats.score, 0);
    assert_eq!(player.player_data.stats.asteroids_destroyed, 0);
    assert_eq!(player.player_data.lives, 3);
}

#[test]
fn hazard_of_tier_two_hit_by_a_bullet() {
    let mut world = World::new();
    let s = ship(&mut world, 3, 0, FAR, FAR);
    let a = rock(&mut world, 2, 0, 0);
    let b = bullet(&mut world, 50_000, 0);
    world.collision_detection();
    let doomed = world.handle_asteroid_collisions();
    assert_eq!(doomed, vec![a, b]);
    let player = world.player().unwrap();
    assert_eq!(player.player_data.stats.score, 100);
    assert_eq!(player.player_data.stats.asteroids_destroyed, 1);
    assert_eq!(player.player_data.lives, 3);
    world.despawn_all(&doomed);
    assert_eq!(world.len(), 1);
    assert!(world.get(a).is_none());
    assert!(world.get(b).is_none());
    assert!(world.get(s).is_some());
    let late = rock(&mut world, 0, 0, 0);
    world.collision_detection();
    assert!(world.get(late).unwrap().collider.colliding_entities.is_empty());
    assert!(world.handle_asteroid_collisions().is_empty());
    assert_eq!(world.player().unwrap().player_data.stats.score, 100);
}

#[test]
fn each_overlap_of_a_hazard_with_a_bullet_scores() {
    let mut world = World::new();
    ship(&mut world, 3, 7, FAR, FAR);
    let a = rock(&mut world, 0, 0, 0);
    let b = bullet(&mut world, 10_000, 0);
    let c = rock(&mut world, 0, 20_000, 0);
    let d = bullet(&mut world, 10_000, 5_000);
    let lone = rock(&mut world, 0, -FAR, 0);
    world.collision_detection();
    let doomed = world.handle_asteroid_collisions();
    // a and c each overlap both bullets
    assert_eq!(doomed, vec![a, b, c, d]);
    let player = world.player().unwrap();
    assert_eq!(player.player_data.stats.score, 407);
    assert_eq!(player.player_data.stats.asteroids_destroyed, 4);
    world.despawn_all(&doomed);
    assert_eq!(world.len(), 2);
    assert!(world.get(lone).is_some());
}

#[test]
fn without_a_ship_nothing_is_judged() {
    let mut world = World::new();
    let a = rock(&mut world, 0, 0, 0);
    let b = bullet(&mut world, 10_000, 0);
    world.collision_detection();
    assert_eq!(world.get(a).unwrap().collider.colliding_entities, vec![b]);
    assert!(world.handle_asteroid_collisions().is_empty());
    let crash = world.handle_player_collisions();
    assert!(crash.doomed.is_empty());
    assert!(!crash.game_over);
    assert_eq!(world.len(), 2);
    assert!(world.player().is_none());
}

#[test]
fn score_stops_at_the_largest_number() {
    let mut world = World::new();
    ship(&mut world, 3, u32::MAX - 50, FAR, FAR);
    rock(&mut world, 0, 0, 0);
    bullet(&mut world, 10_000, 0);
    world.collision_detection();
    world.handle_asteroid_collisions();
    assert_eq!(world.player().unwrap().player_data.stats.score, u32::MAX);
    assert_eq!(world.player().unwrap().player_data.stats.asteroids_destroyed, 1);
}

#[test]
fn crash_costs_a_life_and_destroys_the_hazard() {
    let mut world = World::new();
    ship(&mut world, 3, 0, 0, 0);
    let a = rock(&mut world, 0, 30_000, 0);
    world.collision_detection();
    assert!(world.handle_asteroid_collisions().is_empty());
    let crash = world.handle_player_collisions();
    assert_eq!(crash.doomed, vec![a]);
    assert!(!crash.game_over);
    let player = world.player().unwrap();
    assert_eq!(player.player_data.lives, 2);
    assert_eq!(player.player_data.stats.score, 50);
    assert_eq!(player.player_data.stats.asteroids_destroyed, 1);
    world.despawn_all(&crash.doomed);
    assert_eq!(world.len(), 1);
}

#[test]
fn last_life_is_not_taken() {
    let mut world = World::new();
    ship(&mut world, 1, 300, 0, 0);
    let a = rock(&mut world, 0, 30_000, 0);
    world.collision_detection();
    let crash = world.handle_player_collisions();
    assert!(crash.game_over);
    assert!(crash.doomed.is_empty());
    let player = world.player().unwrap();
    assert_eq!(player.player_data.lives, 1);
    assert_eq!(player.player_data.stats.score, 300);
    assert_eq!(player.player_data.stats.asteroids_destroyed, 0);
    world.despawn_all(&crash.doomed);
    assert!(world.get(a).is_some());
}

#[test]
fn crashes_are_taken_in_order_until_one_life_is_left() {
    let mut world = World::new();
    ship(&mut world, 3, 0, 0, 0);
    let a = rock(&mut world, 0, 30_000, 0);
    let b = rock(&mut world, 0, 0, 30_000);
    let c = rock(&mut world, 0, -30_000, 0);
    world.collision_detection();
    let crash = world.handle_player_collisions();
    assert_eq!(crash.doomed, vec![a, b]);
    assert!(crash.game_over);
    let player = world.player().unwrap();
    assert_eq!(player.player_data.lives, 1);
    assert_eq!(player.player_data.stats.score, 100);
    assert_eq!(player.player_data.stats.asteroids_destroyed, 2);
    world.despawn_all(&crash.doomed);
    assert!(world.get(c).is_some());
    assert_eq!(world.len(), 2);
}

#[test]
fn two_lives_survive_one_crash() {
    let mut world = World::new();
    ship(&mut world, 2, 0, 0, 0);
    rock(&mut world, 0, 30_000, 0);
    world.collision_detection();
    let crash = world.handle_player_collisions();
    assert!(!crash.game_over);
    assert_eq!(crash.doomed.len(), 1);
    assert_eq!(world.player().unwrap().player_data.lives, 1);
}

#[test]
fn ship_without_lives_loses_at_once() {
    let mut world = World::new();
    ship(&mut world, 0, 0, 0, 0);
    rock(&mut world, 0, 30_000, 0);
    world.collision_detection();
    let crash = world.handle_player_collisions();
    assert!(crash.game_over);
    assert!(crash.doomed.is_empty());
    assert_eq!(world.player().unwrap().player_data.lives, 0);
}

#[test]
fn bullets_do_not_hurt_the_ship() {
    let mut world = World::new();
    ship(&mut world, 1, 0, 0, 0);
    bullet(&mut world, 10_000, 0);
    world.collision_detection();
    assert!(world.handle_asteroid_collisions().is_empty());
    let crash = world.handle_player_collisions();
    assert!(!crash.game_over);
    assert!(crash.doomed.is_empty());
}

#[test]
fn both_passes_judge_the_same_overlaps() {
    let mut world = World::new();
    ship(&mut world, 3, 0, 0, 0);
    let a = rock(&mut world, 0, 30_000, 0);
    let b = bullet(&mut world, 40_000, 0);
    world.collision_detection();
    let shot = world.handle_asteroid_collisions();
    let crash = world.handle_player_collisions();
    assert_eq!(shot, vec![a, b]);
    assert_eq!(crash.doomed, vec![a]);
    let player = world.player().unwrap();
    assert_eq!(player.player_data.stats.score, 150);
    assert_eq!(player.player_data.stats.asteroids_destroyed, 2);
    assert_eq!(player.player_data.lives, 2);
    world.despawn_all(&shot);
    world.despawn_all(&crash.doomed);
    assert_eq!(world.len(), 1);
}

#[test]
fn despawn_all_passes_over_unknown_names() {
    let mut world = World::new();
    let a = rock(&mut world, 0, 0, 0);
    let b = rock(&mut world, 0, 0, 0);
    world.despawn_all(&vec![Entity(99), b, b]);
    assert_eq!(world.len(), 1);
    assert!(world.get(a).is_some());
    world.despawn_all(&Vec::new());
    assert_eq!(world.len(), 1);
}

#[test]
fn kinds_are_found_by_identifier() {
    let mut world = World::new();
    let s = ship(&mut world, 3, 0, 0, 0);
    let a = rock(&mut world, 0, FAR, 0);
    let b = bullet(&mut world, -FAR, 0);
    assert!(world.is_asteroid(a));
    assert!(!world.is_asteroid(b));
    assert!(!world.is_asteroid(s));
    assert!(!world.is_asteroid(Entity(50)));
    assert!(world.is_player_bullet(b));
    assert!(!world.is_player_bullet(a));
    assert!(!world.is_player_bullet(Entity(50)));
    assert!(list_contains(&vec![a, b], b));
    assert!(!list_contains(&vec![a, b], s));
}
