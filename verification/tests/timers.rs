use asteroid_sim::asteroids::{tick_asteroid_spawn_timer, AsteroidSpawnTimer};
use asteroid_sim::player::PlayerFirerateTimer;

const SECOND: u64 = 1_000_000_000;

#[test]
fn spawn_timer_finishes_on_the_tick_that_reaches_the_interval() {
    let mut timer = AsteroidSpawnTimer::new(5 * SECOND);
    assert!(!timer.finished());
    for _ in 0..4 {
        tick_asteroid_spawn_timer(&mut timer, SECOND);
        assert!(!timer.finished());
    }
    tick_asteroid_spawn_timer(&mut timer, SECOND);
    assert!(timer.finished());
    tick_asteroid_spawn_timer(&mut timer, SECOND);
    assert!(!timer.finished());
}

#[test]
fn spawn_timer_keeps_the_remainder() {
    let mut timer = AsteroidSpawnTimer::new(2 * SECOND);
    // 3 s on a 2 s interval: finished, 1 s carried over
    tick_asteroid_spawn_timer(&mut timer, 3 * SECOND);
    assert!(timer.finished());
    tick_asteroid_spawn_timer(&mut timer, SECOND / 2);
    assert!(!timer.finished());
    tick_asteroid_spawn_timer(&mut timer, SECOND / 2);
    assert!(timer.finished());
    tick_asteroid_spawn_timer(&mut timer, SECOND);
    assert!(!timer.finished());
}

#[test]
fn spawn_timer_without_interval_finishes_every_tick() {
    let mut timer = AsteroidSpawnTimer::new(0);
    tick_asteroid_spawn_timer(&mut timer, 0);
    assert!(timer.finished());
    tick_asteroid_spawn_timer(&mut timer, 7);
    assert!(timer.finished());
}

#[test]
fn spawn_timer_reset_starts_over() {
    let mut timer = AsteroidSpawnTimer::new(2 * SECOND);
    tick_asteroid_spawn_timer(&mut timer, SECOND);
    timer.reset();
    tick_asteroid_spawn_timer(&mut timer, SECOND);
    assert!(!timer.finished());
    tick_asteroid_spawn_timer(&mut timer, SECOND);
    assert!(timer.finished());
}

#[test]
fn default_spawn_timer_takes_ten_seconds() {
    let mut timer = AsteroidSpawnTimer::default();
    for _ in 0..9 {
        tick_asteroid_spawn_timer(&mut timer, SECOND);
        assert!(!timer.finished());
    }
    tick_asteroid_spawn_timer(&mut timer, SECOND);
    assert!(timer.finished());
}

#[test]
fn shot_timer_stays_finished_until_reset() {
    let mut timer = PlayerFirerateTimer::new(150_000_000);
    assert!(!timer.finished());
    timer.tick(149_999_999);
    assert!(!timer.finished());
    timer.tick(1);
    assert!(timer.finished());
    timer.tick(1_000_000_000);
    assert!(timer.finished());
    timer.reset();
    assert!(!timer.finished());
    timer.tick(150_000_000);
    assert!(timer.finished());
}

#[test]
fn default_shot_timer_takes_150_milliseconds() {
    let mut timer = PlayerFirerateTimer::default();
    timer.tick(100_000_000);
    assert!(!timer.finished());
    timer.tick(50_000_000);
    assert!(timer.finished());
}

#[test]
fn timers_take_the_longest_tick() {
    let mut once = PlayerFirerateTimer::new(u64::MAX);
    once.tick(u64::MAX - 1);
    assert!(!once.finished());
    once.tick(u64::MAX);
    assert!(once.finished());
    let mut repeating = AsteroidSpawnTimer::new(u64::MAX);
    tick_asteroid_spawn_timer(&mut repeating, u64::MAX - 1);
    assert!(!repeating.finished());
}
