//! The simulation: the store, the two timers and the application state,
//! advanced one frame at a time.
//!
//! A frame first applies a requested change of state. In `InGame` it then
//! runs the phases of [`InGameSet`] in their order, each on the whole store;
//! in `Menu` it runs none.

use vstd::prelude::*;
use crate::asteroids::{
    after_spawner, draw_spawn, new_asteroid, spawn_asteroids_with, spawns, tick_asteroid_spawn_timer,
    AsteroidSpawnTimer, SpawnDraw, ASTEROID_SPAWNRATE,
};
use crate::collisions::detected;
use crate::despawn::without_strays;
use crate::lineage::{follows, lemma_frame_follows};
use crate::movement::{accelerated, moved, MovingObjectBundle};
use crate::player::{
    after_weapon, confine_player_movement, confined, fires, new_ship, player_movement, player_shield,
    player_weapon, readied, shielded, spawn_player, steered, tick_player_shot_timer, Bearings, Controls,
    Player, PlayerFirerateTimer, PLAYER_TIME_UNTIL_NEXT_SHOT,
};
use crate::resolution::{
    after_crashes, after_shots, game_lost, lemma_hazards_pass_through_each_other, lemma_untouched_ship_is_safe,
    names_asteroid, shot_down, without, wrecked, Crash,
};
use crate::schedules::{lemma_order_is_total, InGameSet, PHASES};
use crate::state::AppState;
use crate::timer::{lemma_repeating_finishes_when_due, TimerState};
use crate::world::{admits, object_of, player_of, store_wf, Entity, EntityKind, ObjectView, Viewport, World};

verus! {

/// What a frame is given: its length, what the player asks, which way the
/// ship's nose points, and the size of the window.
#[derive(Clone, Copy, Debug, PartialEq, Eq, Structural)]
pub struct FrameInput {
    pub delta_nanos: u64,
    pub controls: Controls,
    pub bearings: Bearings,
    pub viewport: Viewport,
}

/// What a frame reports to the display.
#[derive(Clone, Copy, Debug, PartialEq, Eq, Structural)]
pub struct TickReport {
    /// The state that was entered as the frame began.
    pub entered: Option<AppState>,
    /// The score, where it is not the one the frame began with.
    pub score_changed: Option<u32>,
    /// The lives, where they are not those the frame began with.
    pub lives_changed: Option<u32>,
    /// The ship rammed a hazard with no life to spare. The menu is entered
    /// as the next frame begins.
    pub game_over: bool,
}

/// The simulation.
#[derive(Debug)]
pub struct Simulation {
    pub(crate) state: AppState,
    pub(crate) next_state: Option<AppState>,
    pub(crate) world: World,
    pub(crate) asteroid_spawn_timer: AsteroidSpawnTimer,
    pub(crate) player_firerate_timer: PlayerFirerateTimer,
}

/// The simulation as the contracts see it.
pub struct SimulationView {
    pub state: AppState,
    /// A change of state that was requested and not yet made.
    pub next_state: Option<AppState>,
    pub objects: Seq<ObjectView>,
    /// The identifier the next spawned object gets.
    pub next_id: u64,
    pub spawn_timer: TimerState,
    pub shot_timer: TimerState,
}

impl View for Simulation {
    type V = SimulationView;

    open(crate) spec fn view(&self) -> SimulationView {
        SimulationView {
            state: self.state,
            next_state: self.next_state,
            objects: self.world@,
            next_id: self.world.next_id(),
            spawn_timer: self.asteroid_spawn_timer@,
            shot_timer: self.player_firerate_timer@,
        }
    }
}

impl SimulationView {
    /// The store and both timers are well-formed.
    pub open spec fn wf(self) -> bool {
        &&& store_wf(self.objects, self.next_id)
        &&& self.spawn_timer.wf()
        &&& self.shot_timer.wf()
    }

    /// The requested change of state is made. Entering `InGame` empties the
    /// store, puts the ship into the middle of the window and starts both
    /// timers over; entering `Menu` empties the store. A request for the
    /// state that holds already is dropped.
    pub open spec fn transitioned(self, viewport: Viewport) -> SimulationView {
        match self.next_state {
            None => self,
            Some(target) => if target == self.state {
                SimulationView { next_state: None, ..self }
            } else if target == AppState::InGame {
                SimulationView {
                    state: AppState::InGame,
                    next_state: None,
                    objects: if self.next_id < u64::MAX {
                        seq![new_ship(Entity(self.next_id), viewport)]
                    } else {
                        Seq::empty()
                    },
                    next_id: if self.next_id < u64::MAX {
                        (self.next_id + 1) as u64
                    } else {
                        self.next_id
                    },
                    spawn_timer: self.spawn_timer.rewound(),
                    shot_timer: self.shot_timer.rewound(),
                }
            } else {
                SimulationView { state: AppState::Menu, next_state: None, objects: Seq::empty(), ..self }
            },
        }
    }

    /// The despawn phase: objects too far from the middle of the window are
    /// removed.
    pub open spec fn despawned(self, input: FrameInput) -> SimulationView {
        SimulationView { objects: without_strays(self.objects, input.viewport), ..self }
    }

    /// The input phase: the ship is steered and held inside the window; it
    /// is ready to fire again once the shot timer has finished; it fires
    /// along the direction it has after its turn; and it raises its shield.
    pub open spec fn controlled(self, input: FrameInput) -> SimulationView {
        let steered = self.objects.map_values(
            |o: ObjectView| steered(o, input.controls, input.bearings.ahead, input.delta_nanos),
        );
        let confined = steered.map_values(|o: ObjectView| confined(o, input.viewport));
        let ready = readied(confined, self.shot_timer);
        let shoots = fires(ready, self.next_id, input.controls.fire);
        let armed = after_weapon(
            ready,
            self.next_id,
            input.controls.fire,
            input.bearings.turned(input.controls),
        );
        SimulationView {
            objects: armed.map_values(|o: ObjectView| shielded(o, input.controls.shield)),
            next_id: if shoots {
                (self.next_id + 1) as u64
            } else {
                self.next_id
            },
            shot_timer: if shoots {
                self.shot_timer.rewound()
            } else {
                self.shot_timer
            },
            ..self
        }
    }

    /// The update phase: velocities take up accelerations, objects move,
    /// both timers count the frame, the ship is ready to fire again once the
    /// shot timer has finished, and a hazard is spawned if the spawn timer
    /// finished in this frame.
    pub open spec fn updated(self, input: FrameInput, draw: SpawnDraw) -> SimulationView {
        let moved = self.objects.map_values(|o: ObjectView| accelerated(o)).map_values(
            |o: ObjectView| moved(o, input.delta_nanos, input.controls.coasting()),
        );
        let shot_timer = self.shot_timer.advanced(input.delta_nanos as nat);
        let spawn_timer = self.spawn_timer.advanced(input.delta_nanos as nat);
        let ready = readied(moved, shot_timer);
        SimulationView {
            objects: after_spawner(ready, self.next_id, spawn_timer, draw),
            next_id: if spawns(self.next_id, spawn_timer) {
                (self.next_id + 1) as u64
            } else {
                self.next_id
            },
            spawn_timer,
            shot_timer,
            ..self
        }
    }

    /// The detection phase: every object's recorded overlaps are replaced.
    pub open spec fn scanned(self) -> SimulationView {
        SimulationView { objects: detected(self.objects), ..self }
    }

    /// The resolution phase: the hazards' overlaps are judged, then the
    /// ship's; then the objects that either pass doomed are removed. If the
    /// game is lost, the menu is requested.
    pub open spec fn resolved(self) -> SimulationView {
        let shots = after_shots(self.objects);
        let crashes = after_crashes(shots);
        SimulationView {
            objects: without(without(crashes, shot_down(self.objects)), wrecked(shots)),
            next_state: if game_lost(shots) {
                Some(AppState::Menu)
            } else {
                self.next_state
            },
            ..self
        }
    }

    /// One phase.
    pub open spec fn ran(self, set: InGameSet, input: FrameInput, draw: SpawnDraw) -> SimulationView {
        match set {
            InGameSet::DespawnEntities => self.despawned(input),
            InGameSet::UserInput => self.controlled(input),
            InGameSet::EntityUpdates => self.updated(input, draw),
            InGameSet::CollisionDetection => self.scanned(),
            InGameSet::Resolution => self.resolved(),
        }
    }

    /// The first `n` phases, in the order of their ranks.
    pub open spec fn piped(self, input: FrameInput, draw: SpawnDraw, n: nat) -> SimulationView
        decreases n,
    {
        if n == 0 {
            self
        } else {
            self.piped(input, draw, (n - 1) as nat).ran(InGameSet::at((n - 1) as nat), input, draw)
        }
    }

    /// One frame: the requested change of state is made; then, in `InGame`,
    /// all phases run in their order.
    pub open spec fn ticked(self, input: FrameInput, draw: SpawnDraw) -> SimulationView {
        let begun = self.transitioned(input.viewport);
        if begun.state == AppState::InGame {
            begun.piped(input, draw, PHASES as nat)
        } else {
            begun
        }
    }

    /// The state that a frame enters as it begins.
    pub open spec fn entering(self) -> Option<AppState> {
        match self.next_state {
            Some(target) => if target == self.state {
                None
            } else {
                Some(target)
            },
            None => None,
        }
    }
}

/// The order of a frame. After the change of state, a running game despawns,
/// then takes the input, then updates, then detects collisions, then
/// resolves them: the resolution reads the overlaps that the detection of the
/// same frame recorded, and what the despawn removed takes no input. In the
/// menu no phase runs.
pub proof fn lemma_frame_order(v: SimulationView, input: FrameInput, draw: SpawnDraw)
    ensures
        v.ticked(input, draw) == if v.transitioned(input.viewport).state == AppState::InGame {
            v.transitioned(input.viewport).despawned(input).controlled(input).updated(
                input,
                draw,
            ).scanned().resolved()
        } else {
            v.transitioned(input.viewport)
        },
{
    reveal_with_fuel(SimulationView::piped, 6);
}

/// The update phase of a running game spawns one hazard in the frame in
/// which the time counted on the spawn timer reaches the interval, and none
/// before. If an identifier is left, that frame's update ends with one
/// object more than a frame without a spawn would: a hazard at rest at the
/// drawn position, last in the store, under the identifier that was next.
pub proof fn lemma_hazard_spawns_when_due(v: SimulationView, input: FrameInput, draw: SpawnDraw)
    requires
        v.spawn_timer.repeating,
    ensures
        v.spawn_timer.elapsed + input.delta_nanos < v.spawn_timer.duration ==> v.updated(
            input,
            draw,
        ).objects.len() == v.objects.len(),
        v.spawn_timer.elapsed + input.delta_nanos >= v.spawn_timer.duration && v.next_id < u64::MAX ==> ({
            let after = v.updated(input, draw);
            &&& after.objects.len() == v.objects.len() + 1
            &&& after.objects.last() == new_asteroid(Entity(v.next_id), draw)
            &&& after.next_id == v.next_id + 1
        }),
{
    lemma_repeating_finishes_when_due(v.spawn_timer, input.delta_nanos as nat);
}

/// A resolution phase that finds hazards touching only hazards, and the
/// ship touching none, changes nothing.
pub proof fn lemma_nothing_to_resolve(v: SimulationView)
    requires
        v.wf(),
        forall|i: int, q: int|
            0 <= i < v.objects.len() && (#[trigger] v.objects[i]).is_asteroid() && 0 <= q
                < v.objects[i].overlaps.len() ==> names_asteroid(v.objects, #[trigger] v.objects[i].overlaps[q]),
        forall|i: int, q: int|
            0 <= i < v.objects.len() && (#[trigger] v.objects[i]).is_player() && 0 <= q
                < v.objects[i].overlaps.len() ==> !names_asteroid(
                v.objects,
                #[trigger] v.objects[i].overlaps[q],
            ),
    ensures
        v.resolved() == v,
{
    lemma_hazards_pass_through_each_other(v.objects, v.next_id);
    lemma_untouched_ship_is_safe(v.objects);
}

/// A number to show, where it is not the one shown before.
pub open spec fn notice(before: Option<u32>, after: Option<u32>) -> Option<u32> {
    if after == before {
        None
    } else {
        after
    }
}

/// The ship's score.
pub open spec fn score_of(player: Option<Player>) -> Option<u32> {
    match player {
        Some(p) => Some(p.player_data.stats.score),
        None => None,
    }
}

/// The ship's lives.
pub open spec fn lives_of(player: Option<Player>) -> Option<u32> {
    match player {
        Some(p) => Some(p.player_data.lives),
        None => None,
    }
}

/// What a frame that led from `before` to `after` reports.
pub open spec fn report_of(before: SimulationView, after: SimulationView) -> TickReport {
    TickReport {
        entered: before.entering(),
        score_changed: notice(score_of(player_of(before.objects)), score_of(player_of(after.objects))),
        lives_changed: notice(lives_of(player_of(before.objects)), lives_of(player_of(after.objects))),
        game_over: after.next_state is Some,
    }
}

impl Simulation {
    /// The store and both timers are well-formed.
    pub open spec fn wf(&self) -> bool {
        self@.wf()
    }

    /// A simulation in the menu, with an empty store, that will spawn a
    /// hazard every `spawn_nanos` and allow a shot every `shot_nanos`.
    pub fn with_intervals(spawn_nanos: u64, shot_nanos: u64) -> (sim: Simulation)
        ensures
            sim.wf(),
            sim@ == (SimulationView {
                state: AppState::Menu,
                next_state: None,
                objects: Seq::empty(),
                next_id: 0,
                spawn_timer: TimerState::fresh(spawn_nanos as nat, true),
                shot_timer: TimerState::fresh(shot_nanos as nat, false),
            }),
    {
        Simulation {
            state: AppState::Menu,
            next_state: None,
            world: World::new(),
            asteroid_spawn_timer: AsteroidSpawnTimer::new(spawn_nanos),
            player_firerate_timer: PlayerFirerateTimer::new(shot_nanos),
        }
    }

    /// A simulation in the menu, with an empty store and the usual intervals.
    pub fn new() -> (sim: Simulation)
        ensures
            sim.wf(),
            sim@ == (SimulationView {
                state: AppState::Menu,
                next_state: None,
                objects: Seq::empty(),
                next_id: 0,
                spawn_timer: TimerState::fresh(ASTEROID_SPAWNRATE as nat, true),
                shot_timer: TimerState::fresh(PLAYER_TIME_UNTIL_NEXT_SHOT as nat, false),
            }),
    {
        Simulation::with_intervals(ASTEROID_SPAWNRATE, PLAYER_TIME_UNTIL_NEXT_SHOT)
    }

    /// The state that holds.
    pub fn state(&self) -> (state: AppState)
        ensures
            state == self@.state,
    {
        self.state
    }

    /// The change of state that was requested and not yet made.
    pub fn next_state(&self) -> (next: Option<AppState>)
        ensures
            next == self@.next_state,
    {
        self.next_state
    }

    /// The store.
    pub fn world(&self) -> (world: &World)
        ensures
            world@ == self@.objects,
            world.next_id() == self@.next_id,
            self.wf() ==> world.wf(),
    {
        &self.world
    }

    /// Whether the spawn timer finished in the last frame.
    pub fn spawn_timer_finished(&self) -> (b: bool)
        ensures
            b == self@.spawn_timer.finished,
    {
        self.asteroid_spawn_timer.finished()
    }

    /// Whether the shot timer has finished since the last shot.
    pub fn shot_timer_finished(&self) -> (b: bool)
        ensures
            b == self@.shot_timer.finished,
    {
        self.player_firerate_timer.finished()
    }

    /// Asks for a change of state. It is made as the next frame begins.
    pub fn request_state(&mut self, target: AppState)
        ensures
            final(self)@ == (SimulationView { next_state: Some(target), ..old(self)@ }),
    {
        self.next_state = Some(target);
    }

    /// Adds an object to the store, as [`World::spawn`] does.
    pub fn spawn(&mut self, kind: EntityKind, bundle: MovingObjectBundle) -> (spawned: Option<Entity>)
        requires
            old(self).wf(),
        ensures
            final(self).wf(),
            admits(old(self)@.objects, old(self)@.next_id, kind) ==> {
                &&& spawned == Some(Entity(old(self)@.next_id))
                &&& final(self)@ == (SimulationView {
                    objects: old(self)@.objects.push(object_of(Entity(old(self)@.next_id), kind, bundle)),
                    next_id: (old(self)@.next_id + 1) as u64,
                    ..old(self)@
                })
            },
            !admits(old(self)@.objects, old(self)@.next_id, kind) ==> spawned is None && final(self)@ == old(
                self,
            )@,
    {
        self.world.spawn(kind, bundle)
    }

    /// Makes the requested change of state.
    fn apply_state_transition(&mut self, viewport: Viewport)
        requires
            old(self).wf(),
        ensures
            final(self).wf(),
            final(self)@ == old(self)@.transitioned(viewport),
    {
        match self.next_state {
            None => {},
            Some(target) => {
                self.next_state = None;
                if target == self.state {
                } else if target == AppState::InGame {
                    self.state = AppState::InGame;
                    self.world.clear();
                    spawn_player(&mut self.world, viewport);
                    self.asteroid_spawn_timer.reset();
                    self.player_firerate_timer.reset();
                    assert(Seq::<ObjectView>::empty().push(new_ship(Entity(old(self)@.next_id), viewport))
                        =~= seq![new_ship(Entity(old(self)@.next_id), viewport)]);
                } else {
                    self.state = AppState::Menu;
                    self.world.clear();
                }
            },
        }
    }

    /// Runs one phase.
    fn run_phase(&mut self, set: InGameSet, input: FrameInput, draw: SpawnDraw)
        requires
            old(self).wf(),
            draw.fits(input.viewport),
        ensures
            final(self).wf(),
            final(self)@ == old(self)@.ran(set, input, draw),
    {
        match set {
            InGameSet::DespawnEntities => {
                self.world.despawn_far_entities(input.viewport);
            },
            InGameSet::UserInput => {
                player_movement(&mut self.world, input.controls, input.bearings.ahead, input.delta_nanos);
                confine_player_movement(&mut self.world, input.viewport);
                player_weapon(
                    &mut self.world,
                    &mut self.player_firerate_timer,
                    input.controls.fire,
                    input.bearings.turned(input.controls),
                );
                player_shield(&mut self.world, input.controls.shield);
            },
            InGameSet::EntityUpdates => {
                self.world.update_velocity();
                self.world.update_position(input.delta_nanos, input.controls.coasting());
                tick_player_shot_timer(&mut self.world, &mut self.player_firerate_timer, input.delta_nanos);
                tick_asteroid_spawn_timer(&mut self.asteroid_spawn_timer, input.delta_nanos);
                spawn_asteroids_with(&mut self.world, &self.asteroid_spawn_timer, draw, input.viewport);
            },
            InGameSet::CollisionDetection => {
                self.world.collision_detection();
            },
            InGameSet::Resolution => {
                let shot: Vec<Entity> = self.world.handle_asteroid_collisions();
                let crash: Crash = self.world.handle_player_collisions();
                self.world.despawn_all(&shot);
                self.world.despawn_all(&crash.doomed);
                if crash.game_over {
                    self.next_state = Some(AppState::Menu);
                }
            },
        }
    }

    /// Advances the simulation by one frame, with `draw` for the hazard that
    /// the frame may spawn. The caller owes a draw that fits the frame's
    /// window.
    pub fn tick_with(&mut self, input: FrameInput, draw: SpawnDraw) -> (report: TickReport)
        requires
            old(self).wf(),
            draw.fits(input.viewport),
        ensures
            final(self).wf(),
            final(self)@ == old(self)@.ticked(input, draw),
            report == report_of(old(self)@, final(self)@),
            old(self)@.entering() != Some(AppState::InGame) ==> follows(old(self)@, final(self)@),
    {
        proof {
            if self@.entering() != Some(AppState::InGame) {
                lemma_frame_follows(self@, input, draw);
            }
        }
        let entered: Option<AppState> = match self.next_state {
            Some(target) => if target == self.state {
                None
            } else {
                Some(target)
            },
            None => None,
        };
        let before: Option<Player> = self.world.player();
        self.apply_state_transition(input.viewport);
        if self.state == AppState::InGame {
            let ghost begun = self@;
            let mut phase: Option<InGameSet> = Some(InGameSet::first());
            let mut rank: usize = 0;
            proof {
                lemma_order_is_total(InGameSet::DespawnEntities, 0);
            }
            while phase.is_some()
                invariant
                    self.wf(),
                    draw.fits(input.viewport),
                    rank <= PHASES,
                    self@ == begun.piped(input, draw, rank as nat),
                    phase matches Some(set) ==> set.rank() == rank,
                    phase is None ==> rank == PHASES,
                decreases PHASES - rank,
            {
                let set: InGameSet = phase.unwrap();
                proof {
                    lemma_order_is_total(set, rank as nat);
                }
                self.run_phase(set, input, draw);
                phase = set.next();
                rank = rank + 1;
            }
        }
        let after: Option<Player> = self.world.player();
        TickReport {
            entered,
            score_changed: changed(score(before), score(after)),
            lives_changed: changed(lives(before), lives(after)),
            game_over: self.next_state.is_some(),
        }
    }

    /// Advances the simulation by one frame. The hazard that the frame may
    /// spawn is drawn at random; what was drawn is returned with the report.
    pub fn tick(&mut self, input: FrameInput) -> (outcome: (TickReport, SpawnDraw))
        requires
            old(self).wf(),
        ensures
            final(self).wf(),
            outcome.1.fits(input.viewport),
            final(self)@ == old(self)@.ticked(input, outcome.1),
            outcome.0 == report_of(old(self)@, final(self)@),
            old(self)@.entering() != Some(AppState::InGame) ==> follows(old(self)@, final(self)@),
    {
        let draw: SpawnDraw = draw_spawn(input.viewport);
        let report: TickReport = self.tick_with(input, draw);
        (report, draw)
    }
}

fn score(player: Option<Player>) -> (s: Option<u32>)
    ensures
        s == score_of(player),
{
    match player {
        Some(p) => Some(p.player_data.stats.score),
        None => None,
    }
}

fn lives(player: Option<Player>) -> (l: Option<u32>)
    ensures
        l == lives_of(player),
{
    match player {
        Some(p) => Some(p.player_data.lives),
        None => None,
    }
}

fn changed(before: Option<u32>, after: Option<u32>) -> (n: Option<u32>)
    ensures
        n == notice(before, after),
{
    let same: bool = match (before, after) {
        (Some(a), Some(b)) => a == b,
        (None, None) => true,
        _ => false,
    };
    if same {
        None
    } else {
        after
    }
}

} // verus!
