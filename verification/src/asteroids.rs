//! Hazards and their spawner.

use vstd::prelude::*;
use bevy::time::Timer;
use rand::Rng;
use crate::collisions::Collider;
use crate::fixed::Vec2;
use crate::movement::{Acceleration, MovingObjectBundle, Velocity};
use crate::timer::{timer_finished, timer_new, timer_reset, timer_state, timer_tick, TimerState};
use crate::world::{admits, object_of, Entity, EntityKind, ObjectView, Transform, Viewport, World};

verus! {

/// Nanoseconds between two hazards.
pub const ASTEROID_SPAWNRATE: u64 = 10_000_000_000;

/// Radius of the smallest hazard's collider.
pub const ASTEROID_BASE_SIZE: i64 = 16_000;

/// Scale the smallest hazard is drawn at.
pub const ASTEROID_BASE_SCALE: i64 = 250;

/// The number of size tiers.
pub const ASTEROID_TIERS: usize = 4;

/// Marks a hazard. `size` is its tier, from 0 for the smallest.
#[derive(Clone, Copy, Debug, PartialEq, Eq, Structural)]
pub struct Asteroid {
    pub size: usize,
}

/// What chance decides of a new hazard.
#[derive(Clone, Copy, Debug, PartialEq, Eq, Structural)]
pub struct SpawnDraw {
    pub size: usize,
    pub position: Vec2,
}

impl SpawnDraw {
    /// The tier exists and the position lies in the window. In a window
    /// without width or height the coordinate is zero.
    pub open spec fn fits(self, viewport: Viewport) -> bool {
        &&& self.size < ASTEROID_TIERS
        &&& 0 <= self.position.x
        &&& 0 <= self.position.y
        &&& self.position.x < viewport.width || (viewport.width == 0 && self.position.x == 0)
        &&& self.position.y < viewport.height || (viewport.height == 0 && self.position.y == 0)
    }
}

/// A hazard as it is spawned: at rest, with a radius and a scale that grow
/// with its tier.
pub open spec fn new_asteroid(id: Entity, draw: SpawnDraw) -> ObjectView {
    ObjectView {
        id,
        kind: EntityKind::Asteroid(Asteroid { size: draw.size }),
        transform: Transform {
            translation: draw.position,
            rotation: 0,
            scale: (ASTEROID_BASE_SCALE * (draw.size + 1)) as i64,
        },
        velocity: Vec2::zero(),
        acceleration: Vec2::zero(),
        radius: (ASTEROID_BASE_SIZE * (draw.size + 1)) as i64,
        overlaps: Seq::empty(),
    }
}

/// The store spawns a hazard: the timer has finished in this frame and an
/// identifier is left.
pub open spec fn spawns(next_id: u64, timer: TimerState) -> bool {
    timer.finished && next_id < u64::MAX
}

/// The store after the spawner ran.
pub open spec fn after_spawner(objects: Seq<ObjectView>, next_id: u64, timer: TimerState, draw: SpawnDraw) -> Seq<
    ObjectView,
> {
    if spawns(next_id, timer) {
        objects.push(new_asteroid(Entity(next_id), draw))
    } else {
        objects
    }
}

/// The spawner adds exactly one hazard when it spawns, and nothing when it
/// does not. When the spawn timer has finished in this frame and an
/// identifier is left, the store is the old store, every object as it was,
/// and one object more: a hazard at rest at the drawn position, under an
/// identifier that no object of the old store has.
pub proof fn lemma_spawner_adds_one_hazard(
    objects: Seq<ObjectView>,
    next_id: u64,
    timer: TimerState,
    draw: SpawnDraw,
)
    requires
        crate::world::store_wf(objects, next_id),
    ensures
        !spawns(next_id, timer) ==> after_spawner(objects, next_id, timer, draw) == objects,
        spawns(next_id, timer) ==> ({
            let after = after_spawner(objects, next_id, timer, draw);
            &&& after.len() == objects.len() + 1
            &&& after.take(objects.len() as int) == objects
            &&& after.last() == new_asteroid(Entity(next_id), draw)
            &&& after.last().is_asteroid()
            &&& !crate::world::holds(objects, after.last().id)
        }),
{
    if spawns(next_id, timer) {
        let after = after_spawner(objects, next_id, timer, draw);
        assert(after.take(objects.len() as int) =~= objects);
    }
}

/// The timer that spaces the hazards. It starts over each time it finishes,
/// and is finished only in the frame in which it does.
#[derive(Debug)]
pub struct AsteroidSpawnTimer {
    pub(crate) timer: Timer,
}

impl View for AsteroidSpawnTimer {
    type V = TimerState;

    open(crate) spec fn view(&self) -> TimerState {
        timer_state(self.timer)
    }
}

impl AsteroidSpawnTimer {
    /// A timer that finishes every `interval_nanos`.
    pub fn new(interval_nanos: u64) -> (t: AsteroidSpawnTimer)
        ensures
            t@ == TimerState::fresh(interval_nanos as nat, true),
    {
        AsteroidSpawnTimer { timer: timer_new(interval_nanos, true) }
    }

    /// Whether the last tick completed an interval.
    pub fn finished(&self) -> (b: bool)
        ensures
            b == self@.finished,
    {
        timer_finished(&self.timer)
    }

    /// Starts the interval over.
    pub fn reset(&mut self)
        ensures
            final(self)@ == old(self)@.rewound(),
    {
        timer_reset(&mut self.timer);
    }
}

impl Default for AsteroidSpawnTimer {
    fn default() -> (t: AsteroidSpawnTimer)
        ensures
            t@ == TimerState::fresh(ASTEROID_SPAWNRATE as nat, true),
    {
        AsteroidSpawnTimer::new(ASTEROID_SPAWNRATE)
    }
}

/// Counts `delta_nanos` on the spawn timer.
pub fn tick_asteroid_spawn_timer(timer: &mut AsteroidSpawnTimer, delta_nanos: u64)
    requires
        old(timer)@.wf(),
    ensures
        final(timer)@ == old(timer)@.advanced(delta_nanos as nat),
        final(timer)@.wf(),
{
    proof {
        crate::timer::lemma_advanced_wf(timer@, delta_nanos as nat);
    }
    timer_tick(&mut timer.timer, delta_nanos);
}

/// `Rng::gen_range` on the generator of the running thread, for the range
/// from zero up to `bound`, which must not be empty: some number below
/// `bound`. Which one is left open.
#[verifier::external_body]
fn random_below(bound: u64) -> (r: u64)
    requires
        bound > 0,
    ensures
        r < bound,
{
    rand::thread_rng().gen_range(0..bound)
}

/// Draws a tier and a position in the window.
pub fn draw_spawn(viewport: Viewport) -> (draw: SpawnDraw)
    ensures
        draw.fits(viewport),
{
    let size: u64 = random_below(ASTEROID_TIERS as u64);
    let x: u64 = if viewport.width == 0 {
        0
    } else {
        random_below(viewport.width as u64)
    };
    let y: u64 = if viewport.height == 0 {
        0
    } else {
        random_below(viewport.height as u64)
    };
    SpawnDraw { size: size as usize, position: Vec2 { x: x as i64, y: y as i64 } }
}

/// Spawns the hazard that `draw` describes if the spawn timer has finished
/// in this frame: one hazard, at rest. Returns it. The caller owes a draw
/// that fits the window `viewport`: a tier that exists and a position inside
/// the window.
pub fn spawn_asteroids_with(
    world: &mut World,
    timer: &AsteroidSpawnTimer,
    draw: SpawnDraw,
    viewport: Viewport,
) -> (spawned: Option<Entity>)
    requires
        old(world).wf(),
        draw.fits(viewport),
    ensures
        final(world).wf(),
        final(world)@ == after_spawner(old(world)@, old(world).next_id(), timer@, draw),
        spawns(old(world).next_id(), timer@) ==> spawned == Some(Entity(old(world).next_id()))
            && final(world).next_id() == old(world).next_id() + 1,
        !spawns(old(world).next_id(), timer@) ==> spawned is None && final(world).next_id() == old(
            world,
        ).next_id(),
{
    if !timer.finished() {
        return None;
    }
    let tier: i64 = draw.size as i64 + 1;
    let bundle = MovingObjectBundle {
        acceleration: Acceleration::new(Vec2::origin()),
        velocity: Velocity::new(Vec2::origin()),
        collider: Collider::new(ASTEROID_BASE_SIZE * tier),
        transform: Transform { translation: draw.position, rotation: 0, scale: ASTEROID_BASE_SCALE * tier },
    };
    let kind = EntityKind::Asteroid(Asteroid { size: draw.size });
    assert(object_of(Entity(world.next_id()), kind, bundle) == new_asteroid(Entity(world.next_id()), draw));
    assert(admits(world@, world.next_id(), kind) == (world.next_id() < u64::MAX));
    world.spawn(kind, bundle)
}

/// Spawns one hazard of a random tier at a random place in the window if the
/// spawn timer has finished in this frame. Returns what was drawn, and the
/// hazard. Nothing is drawn while the timer has not finished: the smallest
/// tier and the window's corner are returned then.
pub fn spawn_asteroids(world: &mut World, timer: &AsteroidSpawnTimer, viewport: Viewport) -> (spawned: (
    SpawnDraw,
    Option<Entity>,
))
    requires
        old(world).wf(),
    ensures
        final(world).wf(),
        spawned.0.fits(viewport),
        final(world)@ == after_spawner(old(world)@, old(world).next_id(), timer@, spawned.0),
        spawns(old(world).next_id(), timer@) ==> spawned.1 == Some(Entity(old(world).next_id()))
            && final(world).next_id() == old(world).next_id() + 1,
        !spawns(old(world).next_id(), timer@) ==> spawned.1 is None && final(world).next_id() == old(
            world,
        ).next_id(),
{
    if !timer.finished() {
        return (SpawnDraw { size: 0, position: Vec2::origin() }, None);
    }
    let draw: SpawnDraw = draw_spawn(viewport);
    let hazard: Option<Entity> = spawn_asteroids_with(world, timer, draw, viewport);
    (draw, hazard)
}

} // verus!
