//! The ship: its data, its controls, its weapon.

use vstd::prelude::*;
use bevy::time::Timer;
use crate::collisions::Collider;
use crate::fixed::{clamp, negated, over_time, plus, scaled, Vec2, NANOS_PER_SECOND, UNIT};
use crate::movement::{Acceleration, MovingObjectBundle, Velocity};
use crate::resolution::capped;
use crate::timer::{timer_finished, timer_new, timer_reset, timer_state, timer_tick, TimerState};
use crate::world::{
    admits, lemma_no_ship_no_change, object_of, Entity, EntityKind, Object, ObjectView, Transform, Viewport, World,
};

verus! {

/// Radius of the ship's collider.
pub const PLAYER_SIZE: i64 = 20_000;

/// Scale the ship is drawn at.
pub const PLAYER_SCALE: i64 = 500;

/// Margin the ship keeps from the window's edges.
pub const HALF_PLAYER_SIZE: i64 = 16_000;

/// Nanoseconds between two shots.
pub const PLAYER_TIME_UNTIL_NEXT_SHOT: u64 = 150_000_000;

/// Speed of a bullet.
pub const MISSILE_SPEED: i64 = 500_000;

/// Radius of a bullet's collider.
pub const MISSILE_SIZE: i64 = 5_000;

/// Distance from the ship's centre at which a bullet appears.
pub const MISSILE_OFFSET: i64 = 15_000;

/// Marks the ship and carries its data.
#[derive(Clone, Copy, Debug, PartialEq, Eq, Structural)]
pub struct Player {
    pub player_data: PlayerData,
    pub shield: Option<PlayerShield>,
}

/// Marks a bullet fired by the ship.
#[derive(Clone, Copy, Debug, PartialEq, Eq, Structural)]
pub struct PlayerBullet;

/// Marks a raised shield.
#[derive(Clone, Copy, Debug, PartialEq, Eq, Structural)]
pub struct PlayerShield;

/// The ship's state and tuning.
#[derive(Clone, Copy, Debug, PartialEq, Eq, Structural)]
pub struct PlayerData {
    /// Lives left. The last one is never taken: the game ends instead.
    pub lives: u32,
    /// Rounds per minute of the weapon. Not used by any rule.
    pub rpm: i64,
    /// Whether the weapon is ready.
    pub can_fire: bool,
    /// Not used by any rule.
    pub boosting: Vec2,
    /// Speed gained per second of thrust.
    pub acceleration: i64,
    /// Not used by any rule.
    pub max_speed: i64,
    /// Angle turned per second.
    pub rotation_speed: i64,
    /// Nanoseconds between two shots.
    pub firerate: u64,
    pub stats: Stats,
}

/// What the ship has achieved. Each counter stops at the largest `u32`.
#[derive(Clone, Copy, Debug, PartialEq, Eq, Structural)]
pub struct Stats {
    pub score: u32,
    pub asteroids_destroyed: u32,
    /// Not used by any rule.
    pub level: u32,
    pub shots_fired: u32,
}

/// What the player asks of the ship in one frame.
#[derive(Clone, Copy, Debug, PartialEq, Eq, Structural)]
pub struct Controls {
    pub thrust_forward: bool,
    pub thrust_back: bool,
    pub rotate_left: bool,
    pub rotate_right: bool,
    pub fire: bool,
    pub shield: bool,
}

impl Controls {
    /// The ship gets no thrust either way.
    #[verifier::when_used_as_spec(spec_coasting)]
    pub fn coasting(self) -> (b: bool)
        ensures
            b == self.spec_coasting(),
    {
        !self.thrust_forward && !self.thrust_back
    }

    pub open spec fn spec_coasting(self) -> bool {
        !self.thrust_forward && !self.thrust_back
    }

    /// Nothing is asked.
    pub fn idle() -> (c: Controls)
        ensures
            c == (Controls {
                thrust_forward: false,
                thrust_back: false,
                rotate_left: false,
                rotate_right: false,
                fire: false,
                shield: false,
            }),
    {
        Controls {
            thrust_forward: false,
            thrust_back: false,
            rotate_left: false,
            rotate_right: false,
            fire: false,
            shield: false,
        }
    }
}

/// The directions the ship's nose can point in during a frame, as vectors of
/// length [`UNIT`]: at the frame's start, and after this frame's turn to the
/// left or to the right. The angle of that turn is
/// [`PlayerData::rotation_step`].
#[derive(Clone, Copy, Debug, PartialEq, Eq, Structural)]
pub struct Bearings {
    pub ahead: Vec2,
    pub left: Vec2,
    pub right: Vec2,
}

impl Bearings {
    /// The nose's direction once the frame's turn is made: right beats left.
    #[verifier::when_used_as_spec(spec_turned)]
    pub fn turned(self, controls: Controls) -> (heading: Vec2)
        ensures
            heading == self.spec_turned(controls),
    {
        if controls.rotate_right {
            self.right
        } else if controls.rotate_left {
            self.left
        } else {
            self.ahead
        }
    }

    pub open spec fn spec_turned(self, controls: Controls) -> Vec2 {
        if controls.rotate_right {
            self.right
        } else if controls.rotate_left {
            self.left
        } else {
            self.ahead
        }
    }
}

impl Player {
    /// The ship as a game begins: three lives, ready to fire, nothing scored.
    pub open spec fn fresh() -> Player {
        Player {
            player_data: PlayerData {
                lives: 3,
                rpm: 60_000,
                can_fire: true,
                boosting: Vec2::zero(),
                acceleration: 200_000,
                max_speed: 10_000,
                rotation_speed: 4_000,
                firerate: PLAYER_TIME_UNTIL_NEXT_SHOT,
                stats: Stats { score: 0, asteroids_destroyed: 0, level: 1, shots_fired: 0 },
            },
            shield: None,
        }
    }

    /// The ship as a game begins.
    pub fn new() -> (p: Player)
        ensures
            p == Player::fresh(),
    {
        Player {
            player_data: PlayerData {
                lives: 3,
                rpm: 60_000,
                can_fire: true,
                boosting: Vec2::origin(),
                acceleration: 200_000,
                max_speed: 10_000,
                rotation_speed: 4_000,
                firerate: PLAYER_TIME_UNTIL_NEXT_SHOT,
                stats: Stats { score: 0, asteroids_destroyed: 0, level: 1, shots_fired: 0 },
            },
            shield: None,
        }
    }
}

impl PlayerData {
    /// The speed gained per second under the given controls: braking beats
    /// thrust.
    pub open spec fn thrust(self, controls: Controls) -> int {
        if controls.thrust_back {
            clamp(-self.acceleration)
        } else if controls.thrust_forward {
            self.acceleration as int
        } else {
            0
        }
    }

    /// The angle turned in a frame of `delta_nanos` at full rotation speed.
    #[verifier::when_used_as_spec(spec_rotation_step)]
    pub fn rotation_step(self, delta_nanos: u64) -> (step: i64)
        ensures
            step == self.spec_rotation_step(delta_nanos),
    {
        over_time(self.rotation_speed, delta_nanos)
    }

    pub open spec fn spec_rotation_step(self, delta_nanos: u64) -> i64 {
        scaled(self.rotation_speed as int, delta_nanos as int, NANOS_PER_SECOND as int) as i64
    }

    /// The angle turned in a frame under the given controls: right beats
    /// left.
    #[verifier::when_used_as_spec(spec_turn)]
    pub fn turn(self, controls: Controls, delta_nanos: u64) -> (angle: i64)
        ensures
            angle == self.spec_turn(controls, delta_nanos),
    {
        if controls.rotate_right {
            negated(self.rotation_step(delta_nanos))
        } else if controls.rotate_left {
            self.rotation_step(delta_nanos)
        } else {
            0
        }
    }

    pub open spec fn spec_turn(self, controls: Controls, delta_nanos: u64) -> i64 {
        if controls.rotate_right {
            clamp(-self.rotation_step(delta_nanos)) as i64
        } else if controls.rotate_left {
            self.rotation_step(delta_nanos)
        } else {
            0
        }
    }

    /// The angle a ship at the angle `rotation` points at after the frame's
    /// turn.
    #[verifier::when_used_as_spec(spec_rotation_after)]
    pub fn rotation_after(self, rotation: i64, controls: Controls, delta_nanos: u64) -> (angle: i64)
        ensures
            angle == self.spec_rotation_after(rotation, controls, delta_nanos),
    {
        plus(rotation, self.turn(controls, delta_nanos))
    }

    pub open spec fn spec_rotation_after(self, rotation: i64, controls: Controls, delta_nanos: u64) -> i64 {
        clamp(rotation + self.turn(controls, delta_nanos)) as i64
    }
}

/// The ship as a game begins, in the middle of the window.
pub open spec fn new_ship(id: Entity, viewport: Viewport) -> ObjectView {
    ObjectView {
        id,
        kind: EntityKind::Player(Player::fresh()),
        transform: Transform { translation: viewport.center(), rotation: 0, scale: PLAYER_SCALE },
        velocity: Vec2::zero(),
        acceleration: Vec2::zero(),
        radius: PLAYER_SIZE,
        overlaps: Seq::empty(),
    }
}

/// The ship after the frame's steering: it turns by its rotation speed, and
/// its acceleration is its thrust along `heading` for the frame's length.
/// Another object is not changed.
pub open spec fn steered(o: ObjectView, controls: Controls, heading: Vec2, delta_nanos: u64) -> ObjectView {
    match o.kind {
        EntityKind::Player(p) => ObjectView {
            transform: Transform {
                rotation: p.player_data.rotation_after(o.transform.rotation, controls, delta_nanos),
                ..o.transform
            },
            acceleration: (if controls.coasting() {
                Vec2::zero()
            } else {
                heading
            }).times(p.player_data.thrust(controls), UNIT as int).times(
                delta_nanos as int,
                NANOS_PER_SECOND as int,
            ),
            ..o
        },
        _ => o,
    }
}

/// A coordinate kept between `low` and `high`; `low` is tested first.
pub open spec fn kept_between(x: i64, low: i64, high: i64) -> i64 {
    if x < low {
        low
    } else if x > high {
        high
    } else {
        x
    }
}

/// A speed that is lost where the coordinate had to be moved.
pub open spec fn stopped_outside(v: i64, x: i64, low: i64, high: i64) -> i64 {
    if x < low || x > high {
        0
    } else {
        v
    }
}

/// The ship held inside the window, [`HALF_PLAYER_SIZE`] from its edges. On
/// an axis on which it had to be moved it loses its speed. Another object is
/// not changed.
pub open spec fn confined(o: ObjectView, viewport: Viewport) -> ObjectView {
    let low = HALF_PLAYER_SIZE;
    let x_high = (viewport.width - HALF_PLAYER_SIZE) as i64;
    let y_high = (viewport.height - HALF_PLAYER_SIZE) as i64;
    let at = o.transform.translation;
    if o.is_player() {
        ObjectView {
            transform: Transform {
                translation: Vec2 {
                    x: kept_between(at.x, low, x_high),
                    y: kept_between(at.y, low, y_high),
                },
                ..o.transform
            },
            velocity: Vec2 {
                x: stopped_outside(o.velocity.x, at.x, low, x_high),
                y: stopped_outside(o.velocity.y, at.y, low, y_high),
            },
            ..o
        }
    } else {
        o
    }
}

/// The ship with its shield raised if that is asked. Another object is not
/// changed.
pub open spec fn shielded(o: ObjectView, raise: bool) -> ObjectView {
    match o.kind {
        EntityKind::Player(p) => ObjectView {
            kind: EntityKind::Player(
                Player { shield: if raise { Some(PlayerShield) } else { p.shield }, ..p },
            ),
            ..o
        },
        _ => o,
    }
}

/// The ship ready to fire again. Another object is not changed.
pub open spec fn rearmed(o: ObjectView) -> ObjectView {
    match o.kind {
        EntityKind::Player(p) => ObjectView {
            kind: EntityKind::Player(
                Player { player_data: PlayerData { can_fire: true, ..p.player_data }, ..p },
            ),
            ..o
        },
        _ => o,
    }
}

/// The ship after a shot: one more shot counted, and not ready to fire.
/// Another object is not changed.
pub open spec fn discharged(o: ObjectView) -> ObjectView {
    match o.kind {
        EntityKind::Player(p) => ObjectView {
            kind: EntityKind::Player(
                Player {
                    player_data: PlayerData {
                        can_fire: false,
                        stats: Stats {
                            shots_fired: capped(p.player_data.stats.shots_fired + 1),
                            ..p.player_data.stats
                        },
                        ..p.player_data
                    },
                    ..p
                },
            ),
            ..o
        },
        _ => o,
    }
}

/// The bullet that a ship fires along `heading`: it appears
/// [`MISSILE_OFFSET`] ahead of the ship, turned like it, and flies at
/// [`MISSILE_SPEED`].
pub open spec fn bullet_of(id: Entity, ship: ObjectView, heading: Vec2) -> ObjectView {
    ObjectView {
        id,
        kind: EntityKind::PlayerBullet(PlayerBullet),
        transform: Transform {
            translation: ship.transform.translation.sum(heading.times(MISSILE_OFFSET as int, UNIT as int)),
            rotation: ship.transform.rotation,
            scale: UNIT,
        },
        velocity: heading.times(MISSILE_SPEED as int, UNIT as int),
        acceleration: Vec2::zero(),
        radius: MISSILE_SIZE,
        overlaps: Seq::empty(),
    }
}

/// The ship fires this frame: fire is asked, there is a ship, it is ready,
/// and the store has an identifier left for the bullet.
pub open spec fn fires(objects: Seq<ObjectView>, next_id: u64, fire: bool) -> bool {
    &&& fire
    &&& next_id < u64::MAX
    &&& crate::world::has_player(objects)
    &&& crate::world::ship(objects).kind matches EntityKind::Player(p) && p.player_data.can_fire
}

/// The store after the weapon was served: if the ship fires, its bullet is
/// added and the ship is discharged.
pub open spec fn after_weapon(objects: Seq<ObjectView>, next_id: u64, fire: bool, heading: Vec2) -> Seq<
    ObjectView,
> {
    if fires(objects, next_id, fire) {
        objects.map_values(|o: ObjectView| discharged(o)).push(
            bullet_of(Entity(next_id), crate::world::ship(objects), heading),
        )
    } else {
        objects
    }
}

/// The store once the shot timer was looked at: if it has finished, the ship
/// is ready to fire again.
pub open spec fn readied(objects: Seq<ObjectView>, timer: TimerState) -> Seq<ObjectView> {
    if timer.finished {
        objects.map_values(|o: ObjectView| rearmed(o))
    } else {
        objects
    }
}

/// Once the shot timer has finished the ship is ready to fire again, and
/// nothing is fired unless it is asked: served without fire, the weapon
/// leaves a store of as many objects, in which the ship is ready and has
/// counted no shot.
pub proof fn lemma_finished_timer_readies_the_ship(
    objects: Seq<ObjectView>,
    next_id: u64,
    timer: TimerState,
    heading: Vec2,
    player: Player,
)
    requires
        crate::world::store_wf(objects, next_id),
        timer.finished,
        crate::world::player_of(objects) == Some(player),
    ensures
        after_weapon(readied(objects, timer), next_id, false, heading) == readied(objects, timer),
        readied(objects, timer).len() == objects.len(),
        crate::world::player_of(readied(objects, timer)) == Some(
            Player { player_data: PlayerData { can_fire: true, ..player.player_data }, ..player },
        ),
{
    let ready = readied(objects, timer);
    let at = crate::world::ship_index(objects);
    assert(0 <= at < objects.len() && objects[at].is_player());
    assert(ready[at] == rearmed(objects[at]));
    crate::world::lemma_same_ids_wf(objects, ready, next_id);
    crate::world::lemma_ship_is_unique(ready, next_id, at);
}

/// The timer that spaces the ship's shots. It runs once from each shot and
/// then stays finished.
#[derive(Debug)]
pub struct PlayerFirerateTimer {
    pub(crate) timer: Timer,
}

impl View for PlayerFirerateTimer {
    type V = TimerState;

    open(crate) spec fn view(&self) -> TimerState {
        timer_state(self.timer)
    }
}

impl PlayerFirerateTimer {
    /// A timer that finishes `interval_nanos` after it was made or reset.
    pub fn new(interval_nanos: u64) -> (t: PlayerFirerateTimer)
        ensures
            t@ == TimerState::fresh(interval_nanos as nat, false),
    {
        PlayerFirerateTimer { timer: timer_new(interval_nanos, false) }
    }

    /// Whether the interval has passed since the timer was made or reset.
    pub fn finished(&self) -> (b: bool)
        ensures
            b == self@.finished,
    {
        timer_finished(&self.timer)
    }

    /// Starts the interval over.
    pub fn reset(&mut self)
        ensures
            final(self)@ == old(self)@.rewound(),
    {
        timer_reset(&mut self.timer);
    }

    /// Counts `delta_nanos` more.
    pub fn tick(&mut self, delta_nanos: u64)
        requires
            old(self)@.wf(),
        ensures
            final(self)@ == old(self)@.advanced(delta_nanos as nat),
            final(self)@.wf(),
    {
        proof {
            crate::timer::lemma_advanced_wf(self@, delta_nanos as nat);
        }
        timer_tick(&mut self.timer, delta_nanos);
    }
}

impl Default for PlayerFirerateTimer {
    fn default() -> (t: PlayerFirerateTimer)
        ensures
            t@ == TimerState::fresh(PLAYER_TIME_UNTIL_NEXT_SHOT as nat, false),
    {
        PlayerFirerateTimer::new(PLAYER_TIME_UNTIL_NEXT_SHOT)
    }
}

/// Puts the ship into the middle of the window, as a game begins. Nothing
/// happens where the store does not admit a ship.
pub fn spawn_player(world: &mut World, viewport: Viewport) -> (spawned: Option<Entity>)
    requires
        old(world).wf(),
    ensures
        final(world).wf(),
        admits(old(world)@, old(world).next_id(), EntityKind::Player(Player::fresh())) ==> {
            &&& spawned == Some(Entity(old(world).next_id()))
            &&& final(world)@ == old(world)@.push(new_ship(Entity(old(world).next_id()), viewport))
            &&& final(world).next_id() == old(world).next_id() + 1
        },
        !admits(old(world)@, old(world).next_id(), EntityKind::Player(Player::fresh())) ==> {
            &&& spawned is None
            &&& final(world)@ == old(world)@
            &&& final(world).next_id() == old(world).next_id()
        },
{
    let bundle = MovingObjectBundle {
        velocity: Velocity::new(Vec2::origin()),
        acceleration: Acceleration::new(Vec2::origin()),
        collider: Collider::new(PLAYER_SIZE),
        transform: Transform { translation: viewport.center(), rotation: 0, scale: PLAYER_SCALE },
    };
    let kind = EntityKind::Player(Player::new());
    assert(object_of(Entity(world.next_id()), kind, bundle) == new_ship(Entity(world.next_id()), viewport));
    world.spawn(kind, bundle)
}

/// Steers the ship: turns it, and sets its acceleration from the thrust
/// asked and the direction `heading` of its nose.
pub fn player_movement(world: &mut World, controls: Controls, heading: Vec2, delta_nanos: u64)
    requires
        old(world).wf(),
    ensures
        final(world).wf(),
        final(world).next_id() == old(world).next_id(),
        final(world)@ == old(world)@.map_values(|o: ObjectView| steered(o, controls, heading, delta_nanos)),
{
    let ghost f = |o: ObjectView| steered(o, controls, heading, delta_nanos);
    match world.ship_at() {
        Some((index, p)) => {
            let ship: &Object = world.object(index);
            let mut movement: i64 = 0;
            let mut direction: Vec2 = Vec2::origin();
            if controls.thrust_forward {
                movement = p.player_data.acceleration;
                direction = heading;
            }
            if controls.thrust_back {
                movement = negated(p.player_data.acceleration);
                direction = heading;
            }
            let transform = Transform {
                rotation: p.player_data.rotation_after(ship.transform.rotation, controls, delta_nanos),
                ..ship.transform
            };
            let push: Vec2 = direction.scale(movement, UNIT).over_time(delta_nanos);
            let velocity: Vec2 = ship.velocity.value;
            world.change_ship(index, p, transform, velocity, push, Ghost(f));
        },
        None => {
            proof {
                lemma_no_ship_no_change(world@, f);
            }
        },
    }
}

/// Holds the ship inside the window.
pub fn confine_player_movement(world: &mut World, viewport: Viewport)
    requires
        old(world).wf(),
    ensures
        final(world).wf(),
        final(world).next_id() == old(world).next_id(),
        final(world)@ == old(world)@.map_values(|o: ObjectView| confined(o, viewport)),
{
    let ghost f = |o: ObjectView| confined(o, viewport);
    match world.ship_at() {
        Some((index, p)) => {
            let ship: &Object = world.object(index);
            let x_min: i64 = HALF_PLAYER_SIZE;
            let x_max: i64 = viewport.width as i64 - HALF_PLAYER_SIZE;
            let y_min: i64 = HALF_PLAYER_SIZE;
            let y_max: i64 = viewport.height as i64 - HALF_PLAYER_SIZE;
            let mut translation: Vec2 = ship.transform.translation;
            let mut velocity: Vec2 = ship.velocity.value;
            if translation.x < x_min {
                translation.x = x_min;
                velocity.x = 0;
            } else if translation.x > x_max {
                translation.x = x_max;
                velocity.x = 0;
            }
            if translation.y < y_min {
                translation.y = y_min;
                velocity.y = 0;
            } else if translation.y > y_max {
                translation.y = y_max;
                velocity.y = 0;
            }
            let transform = Transform { translation, ..ship.transform };
            let acceleration: Vec2 = ship.acceleration.value;
            world.change_ship(index, p, transform, velocity, acceleration, Ghost(f));
        },
        None => {
            proof {
                lemma_no_ship_no_change(world@, f);
            }
        },
    }
}

/// Gives the ship new data and leaves the rest of it as it is.
fn change_player(world: &mut World, index: usize, player: Player, Ghost(f): Ghost<spec_fn(ObjectView) -> ObjectView>)
    requires
        old(world).wf(),
        index < old(world)@.len(),
        old(world)@[index as int].is_player(),
        f(old(world)@[index as int]) == (ObjectView {
            kind: EntityKind::Player(player),
            ..old(world)@[index as int]
        }),
        forall|o: ObjectView| !o.is_player() ==> #[trigger] f(o) == o,
    ensures
        final(world).wf(),
        final(world).next_id() == old(world).next_id(),
        final(world)@ == old(world)@.map_values(f),
{
    let ship: &Object = world.object(index);
    let transform: Transform = ship.transform;
    let velocity: Vec2 = ship.velocity.value;
    let acceleration: Vec2 = ship.acceleration.value;
    world.change_ship(index, player, transform, velocity, acceleration, Ghost(f));
}

/// Raises the ship's shield if that is asked.
pub fn player_shield(world: &mut World, raise: bool)
    requires
        old(world).wf(),
    ensures
        final(world).wf(),
        final(world).next_id() == old(world).next_id(),
        final(world)@ == old(world)@.map_values(|o: ObjectView| shielded(o, raise)),
{
    let ghost f = |o: ObjectView| shielded(o, raise);
    match world.ship_at() {
        Some((index, p)) => {
            let shield: Option<PlayerShield> = if raise {
                Some(PlayerShield)
            } else {
                p.shield
            };
            change_player(world, index, Player { shield, ..p }, Ghost(f));
        },
        None => {
            proof {
                lemma_no_ship_no_change(world@, f);
            }
        },
    }
}

/// Looks at the shot timer: once it has finished, the ship is ready to fire
/// again. No shot is fired here.
fn ready_weapon(world: &mut World, timer: &PlayerFirerateTimer)
    requires
        old(world).wf(),
    ensures
        final(world).wf(),
        final(world).next_id() == old(world).next_id(),
        final(world)@ == readied(old(world)@, timer@),
{
    if timer.finished() {
        let ghost f = |o: ObjectView| rearmed(o);
        match world.ship_at() {
            Some((index, p)) => {
                let ready = Player { player_data: PlayerData { can_fire: true, ..p.player_data }, ..p };
                change_player(world, index, ready, Ghost(f));
            },
            None => {
                proof {
                    lemma_no_ship_no_change(world@, f);
                }
            },
        }
    }
}

/// Counts `delta_nanos` on the shot timer; once it has finished the ship is
/// ready to fire again. No shot is fired here.
pub fn tick_player_shot_timer(world: &mut World, timer: &mut PlayerFirerateTimer, delta_nanos: u64)
    requires
        old(world).wf(),
        old(timer)@.wf(),
    ensures
        final(world).wf(),
        final(timer)@.wf(),
        final(world).next_id() == old(world).next_id(),
        final(timer)@ == old(timer)@.advanced(delta_nanos as nat),
        final(world)@ == readied(old(world)@, final(timer)@),
{
    timer.tick(delta_nanos);
    ready_weapon(world, timer);
}

/// Fires if fire is asked and the ship is ready.
fn fire_weapon(world: &mut World, timer: &mut PlayerFirerateTimer, fire: bool, heading: Vec2) -> (bullet: Option<
    Entity,
>)
    requires
        old(world).wf(),
    ensures
        final(world).wf(),
        final(world)@ == after_weapon(old(world)@, old(world).next_id(), fire, heading),
        fires(old(world)@, old(world).next_id(), fire) ==> {
            &&& bullet == Some(Entity(old(world).next_id()))
            &&& final(world).next_id() == old(world).next_id() + 1
            &&& final(timer)@ == old(timer)@.rewound()
        },
        !fires(old(world)@, old(world).next_id(), fire) ==> {
            &&& bullet is None
            &&& final(world).next_id() == old(world).next_id()
            &&& final(timer)@ == old(timer)@
        },
{
    if !fire || world.next_id == u64::MAX {
        return None;
    }
    let (index, p) = match world.ship_at() {
        Some(found) => found,
        None => {
            return None;
        },
    };
    if !p.player_data.can_fire {
        return None;
    }
    let ghost before = world@;
    let ship: &Object = world.object(index);
    let shots: u32 = if p.player_data.stats.shots_fired == u32::MAX {
        u32::MAX
    } else {
        p.player_data.stats.shots_fired + 1
    };
    let bundle = MovingObjectBundle {
        velocity: Velocity::new(heading.scale(MISSILE_SPEED, UNIT)),
        acceleration: Acceleration::new(Vec2::origin()),
        collider: Collider::new(MISSILE_SIZE),
        transform: Transform {
            translation: ship.transform.translation.plus(heading.scale(MISSILE_OFFSET, UNIT)),
            rotation: ship.transform.rotation,
            scale: UNIT,
        },
    };
    let spent = Player {
        player_data: PlayerData {
            can_fire: false,
            stats: Stats { shots_fired: shots, ..p.player_data.stats },
            ..p.player_data
        },
        ..p
    };
    change_player(world, index, spent, Ghost(|o: ObjectView| discharged(o)));
    let kind = EntityKind::PlayerBullet(PlayerBullet);
    assert(object_of(Entity(world.next_id()), kind, bundle) == bullet_of(
        Entity(world.next_id()),
        before[index as int],
        heading,
    ));
    let bullet: Option<Entity> = world.spawn(kind, bundle);
    timer.reset();
    bullet
}

/// Serves the weapon. Once the shot timer has finished, the ship is ready to
/// fire again, whether fire is asked or not. If fire is asked and the ship
/// is ready, a bullet is spawned ahead of the ship, flying along `heading`;
/// the ship counts the shot and is not ready again until the shot timer,
/// which starts over, has finished. Returns the bullet.
pub fn player_weapon(world: &mut World, timer: &mut PlayerFirerateTimer, fire: bool, heading: Vec2) -> (bullet:
    Option<Entity>)
    requires
        old(world).wf(),
    ensures
        final(world).wf(),
        final(world)@ == after_weapon(
            readied(old(world)@, old(timer)@),
            old(world).next_id(),
            fire,
            heading,
        ),
        fires(readied(old(world)@, old(timer)@), old(world).next_id(), fire) ==> {
            &&& bullet == Some(Entity(old(world).next_id()))
            &&& final(world).next_id() == old(world).next_id() + 1
            &&& final(timer)@ == old(timer)@.rewound()
        },
        !fires(readied(old(world)@, old(timer)@), old(world).next_id(), fire) ==> {
            &&& bullet is None
            &&& final(world).next_id() == old(world).next_id()
            &&& final(timer)@ == old(timer)@
        },
{
    ready_weapon(world, timer);
    fire_weapon(world, timer, fire, heading)
}

} // verus!
