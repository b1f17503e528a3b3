//! Where the objects of a store come from.
//!
//! Across a phase, a frame or a run of frames, every object of the store is
//! either new, or it is an object that was there before: under the same
//! identifier, of the same kind, and, if it is the ship, with a score and a
//! count of destroyed hazards that are not lower than they were. New objects
//! get identifiers that were never used and are never the ship. Only
//! entering a game makes a new ship.

use vstd::prelude::*;
use crate::asteroids::SpawnDraw;
use crate::collisions::detected;
use crate::despawn::strayed;
use crate::movement::{accelerated, moved};
use crate::player::{confined, discharged, rearmed, shielded, steered};
use crate::resolution::{after_crashes, after_shots, rewarded, shot_down, without, wrecked};
use crate::schedules::InGameSet;
use crate::simulation::{FrameInput, SimulationView};
use crate::state::AppState;
use crate::player::Player;
use crate::world::{
    holds, lemma_filter_members, lemma_ship_is_unique, player_of, ship_index, EntityKind, ObjectView,
};

verus! {

/// `after` is `before` at a later time: the same identifier, the same kind,
/// and for the ship no lower score and no lower count of destroyed hazards.
pub open spec fn carried(before: ObjectView, after: ObjectView) -> bool {
    &&& before.id == after.id
    &&& match before.kind {
        EntityKind::Player(p) => after.kind matches EntityKind::Player(q)
            && p.player_data.stats.score <= q.player_data.stats.score
            && p.player_data.stats.asteroids_destroyed <= q.player_data.stats.asteroids_destroyed,
        EntityKind::Asteroid(_) => after.is_asteroid(),
        EntityKind::PlayerBullet(_) => after.is_player_bullet(),
        EntityKind::Bullet(_) => after.kind is Bullet,
    }
}

/// Every object of `after` is carried over from `before`, or it is not the
/// ship and its identifier is `floor` or above.
pub open spec fn descends(before: Seq<ObjectView>, floor: u64, after: Seq<ObjectView>) -> bool {
    forall|j: int|
        0 <= j < after.len() ==> ((#[trigger] after[j]).id.0 >= floor && !after[j].is_player()) || exists|
            i: int,
        |
            0 <= i < before.len() && carried(#[trigger] before[i], after[j])
}

/// `after` is a later time of the simulation `before`, with no new ship.
pub open spec fn follows(before: SimulationView, after: SimulationView) -> bool {
    &&& before.next_id <= after.next_id
    &&& descends(before.objects, before.next_id, after.objects)
}

/// Every store descends from itself.
pub proof fn lemma_descends_reflexive(objects: Seq<ObjectView>, floor: u64)
    ensures
        descends(objects, floor, objects),
{
    assert forall|j: int| 0 <= j < objects.len() implies ((#[trigger] objects[j]).id.0 >= floor
        && !objects[j].is_player()) || exists|i: int|
        0 <= i < objects.len() && carried(#[trigger] objects[i], objects[j]) by {
        assert(carried(objects[j], objects[j]));
    }
}

/// What descends from a store that descends from another descends from that
/// one.
pub proof fn lemma_descends_transitive(
    a: Seq<ObjectView>,
    floor_a: u64,
    b: Seq<ObjectView>,
    floor_b: u64,
    c: Seq<ObjectView>,
)
    requires
        descends(a, floor_a, b),
        descends(b, floor_b, c),
        floor_a <= floor_b,
    ensures
        descends(a, floor_a, c),
{
    assert forall|j: int| 0 <= j < c.len() implies ((#[trigger] c[j]).id.0 >= floor_a && !c[j].is_player())
        || exists|i: int| 0 <= i < a.len() && carried(#[trigger] a[i], c[j]) by {
        if !(c[j].id.0 >= floor_b && !c[j].is_player()) {
            let k = choose|k: int| 0 <= k < b.len() && carried(#[trigger] b[k], c[j]);
            if !(b[k].id.0 >= floor_a && !b[k].is_player()) {
                let i = choose|i: int| 0 <= i < a.len() && carried(#[trigger] a[i], b[k]);
                assert(carried(a[i], c[j]));
            }
        }
    }
}

/// A change in place that carries every object over.
pub proof fn lemma_descends_map(objects: Seq<ObjectView>, floor: u64, f: spec_fn(ObjectView) -> ObjectView)
    requires
        forall|o: ObjectView| carried(o, #[trigger] f(o)),
    ensures
        descends(objects, floor, objects.map_values(f)),
{
    let after = objects.map_values(f);
    assert forall|j: int| 0 <= j < after.len() implies ((#[trigger] after[j]).id.0 >= floor
        && !after[j].is_player()) || exists|i: int|
        0 <= i < objects.len() && carried(#[trigger] objects[i], after[j]) by {
        assert(carried(objects[j], f(objects[j])));
    }
}

/// A store with objects removed descends from the store.
pub proof fn lemma_descends_filter(objects: Seq<ObjectView>, floor: u64, pred: spec_fn(ObjectView) -> bool)
    ensures
        descends(objects, floor, objects.filter(pred)),
{
    lemma_filter_members(objects, pred);
    let after = objects.filter(pred);
    assert forall|j: int| 0 <= j < after.len() implies ((#[trigger] after[j]).id.0 >= floor
        && !after[j].is_player()) || exists|i: int|
        0 <= i < objects.len() && carried(#[trigger] objects[i], after[j]) by {
        let i = choose|i: int| 0 <= i < objects.len() && #[trigger] objects[i] == after[j];
        assert(carried(objects[i], after[j]));
    }
}

/// A store with one more object, new and not the ship, descends from the
/// store.
pub proof fn lemma_descends_push(objects: Seq<ObjectView>, floor: u64, o: ObjectView)
    requires
        o.id.0 >= floor,
        !o.is_player(),
    ensures
        descends(objects, floor, objects.push(o)),
{
    let after = objects.push(o);
    assert forall|j: int| 0 <= j < after.len() implies ((#[trigger] after[j]).id.0 >= floor
        && !after[j].is_player()) || exists|i: int|
        0 <= i < objects.len() && carried(#[trigger] objects[i], after[j]) by {
        if j < objects.len() {
            assert(carried(objects[j], after[j]));
        }
    }
}

/// What follows a later time of a simulation follows the simulation.
pub proof fn lemma_follows_transitive(a: SimulationView, b: SimulationView, c: SimulationView)
    requires
        follows(a, b),
        follows(b, c),
    ensures
        follows(a, c),
{
    lemma_descends_transitive(a.objects, a.next_id, b.objects, b.next_id, c.objects);
}

/// The despawn phase makes no ship and takes no score.
pub proof fn lemma_despawned_follows(v: SimulationView, input: FrameInput)
    ensures
        follows(v, v.despawned(input)),
{
    lemma_descends_filter(v.objects, v.next_id, |o: ObjectView| !strayed(o, input.viewport));
}

/// The input phase makes no ship and takes no score.
pub proof fn lemma_controlled_follows(v: SimulationView, input: FrameInput)
    ensures
        follows(v, v.controlled(input)),
{
    let floor = v.next_id;
    let steer = |o: ObjectView| steered(o, input.controls, input.bearings.ahead, input.delta_nanos);
    let confine = |o: ObjectView| confined(o, input.viewport);
    let discharge = |o: ObjectView| discharged(o);
    let shield = |o: ObjectView| shielded(o, input.controls.shield);
    let a = v.objects.map_values(steer);
    let b = a.map_values(confine);
    lemma_descends_map(v.objects, floor, steer);
    lemma_descends_map(a, floor, confine);
    lemma_descends_transitive(v.objects, floor, a, floor, b);
    let confined = b;
    let b = crate::player::readied(confined, v.shot_timer);
    if v.shot_timer.finished {
        lemma_descends_map(confined, floor, |o: ObjectView| rearmed(o));
    } else {
        lemma_descends_reflexive(confined, floor);
    }
    lemma_descends_transitive(v.objects, floor, confined, floor, b);
    let c = crate::player::after_weapon(
        b,
        floor,
        input.controls.fire,
        input.bearings.turned(input.controls),
    );
    if crate::player::fires(b, floor, input.controls.fire) {
        let d = b.map_values(discharge);
        lemma_descends_map(b, floor, discharge);
        lemma_descends_push(
            d,
            floor,
            crate::player::bullet_of(
                crate::world::Entity(floor),
                crate::world::ship(b),
                input.bearings.turned(input.controls),
            ),
        );
        lemma_descends_transitive(b, floor, d, floor, c);
    } else {
        lemma_descends_reflexive(b, floor);
    }
    lemma_descends_transitive(v.objects, floor, b, floor, c);
    lemma_descends_map(c, floor, shield);
    lemma_descends_transitive(v.objects, floor, c, floor, c.map_values(shield));
}

/// The update phase makes no ship and takes no score.
pub proof fn lemma_updated_follows(v: SimulationView, input: FrameInput, draw: SpawnDraw)
    ensures
        follows(v, v.updated(input, draw)),
{
    let floor = v.next_id;
    let accelerate = |o: ObjectView| accelerated(o);
    let advance = |o: ObjectView| moved(o, input.delta_nanos, input.controls.coasting());
    let rearm = |o: ObjectView| rearmed(o);
    let a = v.objects.map_values(accelerate);
    let b = a.map_values(advance);
    lemma_descends_map(v.objects, floor, accelerate);
    lemma_descends_map(a, floor, advance);
    lemma_descends_transitive(v.objects, floor, a, floor, b);
    let shot_timer = v.shot_timer.advanced(input.delta_nanos as nat);
    let spawn_timer = v.spawn_timer.advanced(input.delta_nanos as nat);
    let c = crate::player::readied(b, shot_timer);
    if shot_timer.finished {
        lemma_descends_map(b, floor, rearm);
    } else {
        lemma_descends_reflexive(b, floor);
    }
    lemma_descends_transitive(v.objects, floor, b, floor, c);
    let d = crate::asteroids::after_spawner(c, floor, spawn_timer, draw);
    if crate::asteroids::spawns(floor, spawn_timer) {
        lemma_descends_push(c, floor, crate::asteroids::new_asteroid(crate::world::Entity(floor), draw));
    } else {
        lemma_descends_reflexive(c, floor);
    }
    lemma_descends_transitive(v.objects, floor, c, floor, d);
}

/// The detection phase makes no ship and takes no score.
pub proof fn lemma_scanned_follows(v: SimulationView)
    ensures
        follows(v, v.scanned()),
{
    let after = detected(v.objects);
    assert forall|j: int| 0 <= j < after.len() implies ((#[trigger] after[j]).id.0 >= v.next_id
        && !after[j].is_player()) || exists|i: int|
        0 <= i < v.objects.len() && carried(#[trigger] v.objects[i], after[j]) by {
        assert(carried(v.objects[j], after[j]));
    }
}

/// The resolution phase makes no ship and takes no score.
pub proof fn lemma_resolved_follows(v: SimulationView)
    ensures
        follows(v, v.resolved()),
{
    let floor = v.next_id;
    let shots = after_shots(v.objects);
    let crashes = after_crashes(shots);
    let hits = crate::resolution::bullet_hits(v.objects, v.objects.len() as int);
    if crate::world::has_player(v.objects) {
        let credit = |o: ObjectView| rewarded(o, crate::resolution::SHOT_POINTS * hits, hits as int, 0);
        assert(crate::resolution::SHOT_POINTS * hits >= 0) by (nonlinear_arith)
            requires
                hits >= 0,
        ;
        lemma_descends_map(v.objects, floor, credit);
    } else {
        lemma_descends_reflexive(v.objects, floor);
    }
    if crate::world::has_player(shots) {
        let survived = crate::resolution::absorbed(shots, crate::world::ship(shots));
        let credit = |o: ObjectView|
            rewarded(o, crate::resolution::CRASH_POINTS * survived, survived as int, survived as int);
        assert(crate::resolution::CRASH_POINTS * survived >= 0) by (nonlinear_arith)
            requires
                survived >= 0,
        ;
        lemma_descends_map(shots, floor, credit);
    } else {
        lemma_descends_reflexive(shots, floor);
    }
    lemma_descends_transitive(v.objects, floor, shots, floor, crashes);
    let first = shot_down(v.objects);
    let second = wrecked(shots);
    let a = without(crashes, first);
    let b = without(a, second);
    lemma_descends_filter(crashes, floor, |o: ObjectView| !first.contains(o.id));
    lemma_descends_filter(a, floor, |o: ObjectView| !second.contains(o.id));
    lemma_descends_transitive(crashes, floor, a, floor, b);
    lemma_descends_transitive(v.objects, floor, crashes, floor, b);
}

/// No phase makes a ship or takes score.
pub proof fn lemma_ran_follows(v: SimulationView, set: InGameSet, input: FrameInput, draw: SpawnDraw)
    ensures
        follows(v, v.ran(set, input, draw)),
{
    match set {
        InGameSet::DespawnEntities => lemma_despawned_follows(v, input),
        InGameSet::UserInput => lemma_controlled_follows(v, input),
        InGameSet::EntityUpdates => lemma_updated_follows(v, input, draw),
        InGameSet::CollisionDetection => lemma_scanned_follows(v),
        InGameSet::Resolution => lemma_resolved_follows(v),
    }
}

/// The phases `from` to `to` of a frame, applied to the state `from` phases
/// into it, make no ship and take no score.
pub proof fn lemma_piped_follows(v: SimulationView, input: FrameInput, draw: SpawnDraw, from: nat, to: nat)
    requires
        from <= to,
    ensures
        follows(v.piped(input, draw, from), v.piped(input, draw, to)),
    decreases to,
{
    if from == to {
        lemma_descends_reflexive(v.piped(input, draw, from).objects, v.piped(input, draw, from).next_id);
    } else {
        lemma_piped_follows(v, input, draw, from, (to - 1) as nat);
        let mid = v.piped(input, draw, (to - 1) as nat);
        lemma_ran_follows(mid, InGameSet::at((to - 1) as nat), input, draw);
        lemma_follows_transitive(v.piped(input, draw, from), mid, v.piped(input, draw, to));
    }
}

/// Score and the count of destroyed hazards never go down in a frame that
/// does not enter a game: the ship that the frame ends with is the ship it
/// began with, and neither number is lower than it was.
pub proof fn lemma_frame_follows(v: SimulationView, input: FrameInput, draw: SpawnDraw)
    requires
        v.entering() != Some(AppState::InGame),
    ensures
        follows(v, v.ticked(input, draw)),
{
    let begun = v.transitioned(input.viewport);
    assert(follows(v, begun)) by {
        if begun.objects == v.objects {
            lemma_descends_reflexive(v.objects, v.next_id);
        }
    }
    if begun.state == AppState::InGame {
        lemma_piped_follows(begun, input, draw, 0, crate::schedules::PHASES as nat);
        lemma_follows_transitive(v, begun, v.ticked(input, draw));
    }
}

/// Read on the ship's data: where `after` follows a well-formed `before`
/// and has a ship, `before` had one, with a score and a count of destroyed
/// hazards that were not higher.
pub proof fn lemma_score_never_drops(before: SimulationView, after: SimulationView, later: Player)
    requires
        before.wf(),
        follows(before, after),
        player_of(after.objects) == Some(later),
    ensures
        player_of(before.objects) matches Some(earlier) && earlier.player_data.stats.score
            <= later.player_data.stats.score && earlier.player_data.stats.asteroids_destroyed
            <= later.player_data.stats.asteroids_destroyed,
{
    let j = ship_index(after.objects);
    assert(0 <= j < after.objects.len() && after.objects[j].is_player());
    let i = choose|i: int|
        0 <= i < before.objects.len() && carried(#[trigger] before.objects[i], after.objects[j]);
    assert(before.objects[i].is_player());
    lemma_ship_is_unique(before.objects, before.next_id, i);
}

/// The state at `k + 1` is what a frame makes of the state at `k`, and that
/// frame does not enter a game.
pub open spec fn frame_at(
    states: Seq<SimulationView>,
    inputs: Seq<FrameInput>,
    draws: Seq<SpawnDraw>,
    k: int,
) -> bool {
    states[k].entering() != Some(AppState::InGame) && states[k + 1] == states[k].ticked(inputs[k], draws[k])
}

/// Score and the count of destroyed hazards never go down over any run of
/// frames in which no game is entered. `states` are the states the run
/// passes through, each the result of a frame on the one before, whatever
/// the frames were given.
pub proof fn lemma_run_follows(
    states: Seq<SimulationView>,
    inputs: Seq<FrameInput>,
    draws: Seq<SpawnDraw>,
    from: int,
    to: int,
)
    requires
        0 <= from <= to < states.len(),
        inputs.len() + 1 == states.len(),
        draws.len() + 1 == states.len(),
        forall|k: int| 0 <= k < states.len() - 1 ==> #[trigger] frame_at(states, inputs, draws, k),
    ensures
        follows(states[from], states[to]),
    decreases to - from,
{
    if from == to {
        lemma_descends_reflexive(states[from].objects, states[from].next_id);
    } else {
        lemma_run_follows(states, inputs, draws, from, to - 1);
        let mid = states[to - 1];
        assert(frame_at(states, inputs, draws, to - 1));
        lemma_frame_follows(mid, inputs[to - 1], draws[to - 1]);
        lemma_follows_transitive(states[from], mid, states[to]);
    }
}

/// An object that has strayed beyond the despawn distance when a frame of a
/// running game begins is gone when the frame ends.
pub proof fn lemma_strayed_is_gone(v: SimulationView, input: FrameInput, draw: SpawnDraw, at: int)
    requires
        v.wf(),
        v.state == AppState::InGame,
        v.entering() is None,
        0 <= at < v.objects.len(),
        strayed(v.objects[at], input.viewport),
    ensures
        !holds(v.ticked(input, draw).objects, v.objects[at].id),
{
    let begun = v.transitioned(input.viewport);
    assert(begun.objects == v.objects && begun.next_id == v.next_id && begun.state == v.state);
    let first = begun.piped(input, draw, 1);
    assert(first == begun.despawned(input)) by {
        assert(begun.piped(input, draw, 0) == begun);
    }
    let last = v.ticked(input, draw);
    lemma_piped_follows(begun, input, draw, 1, crate::schedules::PHASES as nat);
    let gone = v.objects[at];
    let pred = |o: ObjectView| !strayed(o, input.viewport);
    lemma_filter_members(v.objects, pred);
    if holds(last.objects, gone.id) {
        let j = choose|j: int| 0 <= j < last.objects.len() && (#[trigger] last.objects[j]).id == gone.id;
        assert(gone.id.0 < v.next_id);
        let i = choose|i: int|
            0 <= i < first.objects.len() && carried(#[trigger] first.objects[i], last.objects[j]);
        let k = choose|k: int| 0 <= k < v.objects.len() && #[trigger] v.objects[k] == first.objects[i];
        assert(v.objects[k].id == v.objects[at].id);
        assert(k == at);
        assert(pred(first.objects[i]));
    }
}

} // verus!
