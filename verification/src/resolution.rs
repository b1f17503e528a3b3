//! The rules that act on recorded overlaps.
//!
//! Two passes read the overlaps that the last detection pass recorded. The
//! first judges the hazards' overlaps: a hazard and a bullet that overlap
//! destroy each other and score for the ship. The second judges the ship's
//! overlaps: a hazard costs the ship a life, unless it is the last one, which
//! ends the game. Both credit the ship at once and return the objects to
//! remove, so that the second pass still sees what the first one saw.

use vstd::prelude::*;
use crate::player::{Player, PlayerData, Stats};
use crate::world::{
    has_player, lemma_filter_all, lemma_filter_none, lemma_same_ids_wf, lemma_ship_is_unique, player_of, ship,
    ship_index, store_wf, Entity, EntityKind, ObjectView, World,
};

verus! {

/// Points for a hazard shot down.
pub const SHOT_POINTS: u32 = 100;

/// Points for a hazard that the ship rammed and survived.
pub const CRASH_POINTS: u32 = 50;

/// `entity` is the identifier of a hazard of the store.
pub open spec fn names_asteroid(objects: Seq<ObjectView>, entity: Entity) -> bool {
    exists|i: int| 0 <= i < objects.len() && (#[trigger] objects[i]).id == entity && objects[i].is_asteroid()
}

/// `entity` is the identifier of one of the ship's bullets in the store.
pub open spec fn names_bullet(objects: Seq<ObjectView>, entity: Entity) -> bool {
    exists|i: int|
        0 <= i < objects.len() && (#[trigger] objects[i]).id == entity && objects[i].is_player_bullet()
}

/// How many of the first `n` entries of `list` name a bullet.
pub open spec fn bullets_among(objects: Seq<ObjectView>, list: Seq<Entity>, n: int) -> nat
    decreases n,
{
    if n <= 0 {
        0
    } else {
        bullets_among(objects, list, n - 1) + if names_bullet(objects, list[n - 1]) {
            1nat
        } else {
            0nat
        }
    }
}

/// How many of the first `n` entries of `list` name a hazard.
pub open spec fn asteroids_among(objects: Seq<ObjectView>, list: Seq<Entity>, n: int) -> nat
    decreases n,
{
    if n <= 0 {
        0
    } else {
        asteroids_among(objects, list, n - 1) + if names_asteroid(objects, list[n - 1]) {
            1nat
        } else {
            0nat
        }
    }
}

/// The number of overlaps between a hazard and a bullet, as recorded on the
/// hazards among the first `n` objects.
pub open spec fn bullet_hits(objects: Seq<ObjectView>, n: int) -> nat
    decreases n,
{
    if n <= 0 {
        0
    } else {
        bullet_hits(objects, n - 1) + if objects[n - 1].is_asteroid() {
            bullets_among(objects, objects[n - 1].overlaps, objects[n - 1].overlaps.len() as int)
        } else {
            0nat
        }
    }
}

/// The object is a hazard with a bullet among its recorded overlaps.
pub open spec fn shot(objects: Seq<ObjectView>, o: ObjectView) -> bool {
    o.is_asteroid() && exists|q: int|
        0 <= q < o.overlaps.len() && names_bullet(objects, #[trigger] o.overlaps[q])
}

/// `entity` is a bullet named in the overlaps recorded on some hazard.
pub open spec fn spent(objects: Seq<ObjectView>, entity: Entity) -> bool {
    names_bullet(objects, entity) && exists|i: int|
        0 <= i < objects.len() && (#[trigger] objects[i]).is_asteroid() && objects[i].overlaps.contains(
            entity,
        )
}

/// A counter that stops at the largest `u32`.
pub open spec fn capped(n: int) -> u32 {
    if n > u32::MAX {
        u32::MAX
    } else if n < 0 {
        0
    } else {
        n as u32
    }
}

/// The ship's data after `kills` hazards were destroyed for `points` points
/// at the price of `lost` lives. The counters stop at their largest value.
pub open spec fn credited(p: Player, points: int, kills: int, lost: int) -> Player {
    Player {
        player_data: PlayerData {
            lives: capped(p.player_data.lives - lost),
            stats: Stats {
                score: capped(p.player_data.stats.score + points),
                asteroids_destroyed: capped(p.player_data.stats.asteroids_destroyed + kills),
                ..p.player_data.stats
            },
            ..p.player_data
        },
        ..p
    }
}

/// The object with the ship's data replaced, if it is the ship.
pub open spec fn rewarded(o: ObjectView, points: int, kills: int, lost: int) -> ObjectView {
    match o.kind {
        EntityKind::Player(p) => ObjectView {
            kind: EntityKind::Player(credited(p, points, kills, lost)),
            ..o
        },
        _ => o,
    }
}

/// The identifiers of the objects that satisfy `doomed`, in store order.
pub open spec fn condemned(objects: Seq<ObjectView>, doomed: spec_fn(ObjectView) -> bool) -> Seq<Entity> {
    objects.filter(doomed).map_values(|o: ObjectView| o.id)
}

/// The store after the hazards' overlaps were judged: for each overlap
/// between a hazard and a bullet the ship is credited one hazard and
/// [`SHOT_POINTS`]. Overlaps between two hazards count for nothing. Without
/// a ship nothing happens.
pub open spec fn after_shots(objects: Seq<ObjectView>) -> Seq<ObjectView> {
    let hits = bullet_hits(objects, objects.len() as int);
    if has_player(objects) {
        objects.map_values(|o: ObjectView| rewarded(o, SHOT_POINTS * hits, hits as int, 0))
    } else {
        objects
    }
}

/// The hazards that a bullet hit and the bullets that hit one, if there is a
/// ship.
pub open spec fn shot_down(objects: Seq<ObjectView>) -> Seq<Entity> {
    if has_player(objects) {
        condemned(objects, |o: ObjectView| shot(objects, o) || spent(objects, o.id))
    } else {
        Seq::empty()
    }
}

/// The lives the ship can lose before the game is over.
pub open spec fn spare_lives(o: ObjectView) -> nat {
    match o.kind {
        EntityKind::Player(p) => if p.player_data.lives > 1 {
            (p.player_data.lives - 1) as nat
        } else {
            0
        },
        _ => 0,
    }
}

/// The number of hazards among the ship's recorded overlaps.
pub open spec fn crashes(objects: Seq<ObjectView>, ship: ObjectView) -> nat {
    asteroids_among(objects, ship.overlaps, ship.overlaps.len() as int)
}

/// The number of crashes the ship survives: each costs a life, and the last
/// life is never taken.
pub open spec fn absorbed(objects: Seq<ObjectView>, ship: ObjectView) -> nat {
    if crashes(objects, ship) < spare_lives(ship) {
        crashes(objects, ship)
    } else {
        spare_lives(ship)
    }
}

/// `entity` is a hazard that stands among the first `n` of the ship's
/// recorded overlaps with fewer hazards before it than the ship has spare
/// lives.
pub open spec fn rammed_within(objects: Seq<ObjectView>, ship: ObjectView, entity: Entity, n: int) -> bool {
    names_asteroid(objects, entity) && exists|q: int|
        0 <= q < n && #[trigger] ship.overlaps[q] == entity && asteroids_among(
            objects,
            ship.overlaps,
            q,
        ) < spare_lives(ship)
}

/// `entity` is a hazard that the ship rammed while it had a life to spare.
pub open spec fn rammed(objects: Seq<ObjectView>, ship: ObjectView, entity: Entity) -> bool {
    rammed_within(objects, ship, entity, ship.overlaps.len() as int)
}

/// The store after the ship's overlaps were judged: each hazard it rammed
/// while it had a life to spare costs one life and earns one hazard and
/// [`CRASH_POINTS`]. Without a ship nothing happens.
pub open spec fn after_crashes(objects: Seq<ObjectView>) -> Seq<ObjectView> {
    if has_player(objects) {
        let survived = absorbed(objects, ship(objects));
        objects.map_values(|o: ObjectView| rewarded(o, CRASH_POINTS * survived, survived as int, survived as int))
    } else {
        objects
    }
}

/// The hazards that the ship rammed and survived.
pub open spec fn wrecked(objects: Seq<ObjectView>) -> Seq<Entity> {
    if has_player(objects) {
        condemned(objects, |o: ObjectView| rammed(objects, ship(objects), o.id))
    } else {
        Seq::empty()
    }
}

/// The ship rammed a hazard with no life to spare.
pub open spec fn game_lost(objects: Seq<ObjectView>) -> bool {
    has_player(objects) && crashes(objects, ship(objects)) > spare_lives(ship(objects))
}

/// The store without the objects that `doomed` names.
pub open spec fn without(objects: Seq<ObjectView>, doomed: Seq<Entity>) -> Seq<ObjectView> {
    objects.filter(|o: ObjectView| !doomed.contains(o.id))
}

/// What the ship's collisions came to.
#[derive(Debug)]
pub struct Crash {
    /// The hazards to remove.
    pub doomed: Vec<Entity>,
    /// The ship rammed a hazard with no life to spare.
    pub game_over: bool,
}

/// A count that stops at the largest `u64`.
pub open spec fn saturated(n: nat) -> u64 {
    if n > u64::MAX {
        u64::MAX
    } else {
        n as u64
    }
}

/// Whether `list` holds `entity`.
pub fn list_contains(list: &Vec<Entity>, entity: Entity) -> (found: bool)
    ensures
        found == list@.contains(entity),
{
    let n: usize = list.len();
    let mut i: usize = 0;
    while i < n
        invariant
            i <= n,
            n == list.len(),
            forall|k: int| 0 <= k < i ==> list@[k] != entity,
        decreases n - i,
    {
        if list[i] == entity {
            return true;
        }
        i += 1;
    }
    false
}

impl World {
    /// Whether `entity` is a hazard of this store.
    pub fn is_asteroid(&self, entity: Entity) -> (b: bool)
        requires
            self.wf(),
        ensures
            b == names_asteroid(self@, entity),
    {
        match self.index_of(entity) {
            Some(i) => {
                assert(self@[i as int].kind == self.objects[i as int].kind);
                self.objects[i].kind.is_asteroid()
            },
            None => false,
        }
    }

    /// Whether `entity` is one of the ship's bullets in this store.
    pub fn is_player_bullet(&self, entity: Entity) -> (b: bool)
        requires
            self.wf(),
        ensures
            b == names_bullet(self@, entity),
    {
        match self.index_of(entity) {
            Some(i) => {
                assert(self@[i as int].kind == self.objects[i as int].kind);
                self.objects[i].kind.is_player_bullet()
            },
            None => false,
        }
    }

    /// The number of bullets among the overlaps recorded on the object at
    /// `index`.
    fn count_bullets(&self, index: usize) -> (count: u64)
        requires
            self.wf(),
            index < self@.len(),
        ensures
            count == saturated(
                bullets_among(self@, self@[index as int].overlaps, self@[index as int].overlaps.len() as int),
            ),
    {
        let n: usize = self.objects[index].collider.colliding_entities.len();
        let mut count: u64 = 0;
        let mut q: usize = 0;
        assert(self@[index as int].overlaps == self.objects[index as int].collider.colliding_entities@);
        while q < n
            invariant
                q <= n,
                index < self.objects.len(),
                n == self.objects[index as int].collider.colliding_entities.len(),
                self@[index as int].overlaps == self.objects[index as int].collider.colliding_entities@,
                self.wf(),
                count == saturated(bullets_among(self@, self@[index as int].overlaps, q as int)),
            decreases n - q,
        {
            if self.is_player_bullet(self.objects[index].collider.colliding_entities[q]) {
                count = count.saturating_add(1);
            }
            q += 1;
        }
        count
    }

    /// Whether some hazard's recorded overlaps name `entity`.
    fn named_by_asteroid(&self, entity: Entity) -> (named: bool)
        ensures
            named == exists|i: int|
                0 <= i < self@.len() && (#[trigger] self@[i]).is_asteroid() && self@[i].overlaps.contains(
                    entity,
                ),
    {
        let n: usize = self.objects.len();
        let mut i: usize = 0;
        while i < n
            invariant
                i <= n,
                n == self.objects.len(),
                forall|k: int|
                    0 <= k < i ==> !((#[trigger] self@[k]).is_asteroid() && self@[k].overlaps.contains(
                        entity,
                    )),
            decreases n - i,
        {
            assert(self@[i as int] == self.objects[i as int]@);
            if self.objects[i].kind.is_asteroid() && list_contains(
                &self.objects[i].collider.colliding_entities,
                entity,
            ) {
                return true;
            }
            i += 1;
        }
        false
    }

    /// The identifiers of the flagged objects, in store order.
    fn flagged(&self, flags: &Vec<bool>, Ghost(doomed): Ghost<spec_fn(ObjectView) -> bool>) -> (ids: Vec<
        Entity,
    >)
        requires
            flags.len() == self@.len(),
            forall|k: int| 0 <= k < flags.len() ==> #[trigger] flags[k] == doomed(self@[k]),
        ensures
            ids@ == condemned(self@, doomed),
    {
        let n: usize = self.objects.len();
        let mut ids: Vec<Entity> = Vec::new();
        let mut i: usize = 0;
        proof {
            reveal(Seq::filter);
            assert(self@.take(0).filter(doomed) =~= Seq::<ObjectView>::empty());
            assert(condemned(self@.take(0), doomed) =~= Seq::<Entity>::empty());
        }
        while i < n
            invariant
                i <= n,
                n == self.objects.len(),
                n == flags.len(),
                forall|k: int| 0 <= k < flags.len() ==> #[trigger] flags[k] == doomed(self@[k]),
                ids@ == condemned(self@.take(i as int), doomed),
            decreases n - i,
        {
            proof {
                let head = self@.take(i as int);
                assert(self@.take(i as int + 1) =~= head.push(self@[i as int]));
                head.lemma_filter_push(self@[i as int], doomed);
                if doomed(self@[i as int]) {
                    assert(condemned(head.push(self@[i as int]), doomed) =~= condemned(head, doomed).push(
                        self@[i as int].id,
                    ));
                }
                assert(self@[i as int].id == self.objects[i as int].id);
            }
            if flags[i] {
                ids.push(self.objects[i].id);
            }
            i += 1;
        }
        assert(self@.take(n as int) =~= self@);
        ids
    }

    /// Credits the ship at `index` with `count` hazards at `unit` points
    /// each, and takes a life for each if `costly`.
    fn credit(&mut self, index: usize, count: u64, Ghost(exact): Ghost<nat>, unit: u32, costly: bool)
        requires
            old(self).wf(),
            index < old(self)@.len(),
            old(self)@[index as int].is_player(),
            count == saturated(exact),
            costly ==> exact <= spare_lives(old(self)@[index as int]),
        ensures
            final(self).wf(),
            final(self).next_id() == old(self).next_id(),
            final(self)@ == old(self)@.map_values(
                |o: ObjectView| rewarded(o, unit * exact, exact as int, if costly { exact as int } else { 0 }),
            ),
    {
        let ghost f = |o: ObjectView|
            rewarded(o, unit * exact, exact as int, if costly { exact as int } else { 0 });
        assert(self@[index as int] == self.objects[index as int]@);
        match self.objects[index].kind {
            EntityKind::Player(p) => {
                assert(0 <= unit * count <= 0xFFFF_FFFF * 0xFFFF_FFFF_FFFF_FFFF) by (nonlinear_arith)
                    requires
                        0 <= unit <= 0xFFFF_FFFF,
                        0 <= count <= 0xFFFF_FFFF_FFFF_FFFF,
                ;
                let points: u128 = (unit as u128) * (count as u128);
                let score: u128 = p.player_data.stats.score as u128 + points;
                let destroyed: u128 = p.player_data.stats.asteroids_destroyed as u128 + count as u128;
                let lives: u32 = if costly {
                    p.player_data.lives - count as u32
                } else {
                    p.player_data.lives
                };
                let updated = Player {
                    player_data: PlayerData {
                        lives,
                        stats: Stats {
                            score: if score > u32::MAX as u128 { u32::MAX } else { score as u32 },
                            asteroids_destroyed: if destroyed > u32::MAX as u128 {
                                u32::MAX
                            } else {
                                destroyed as u32
                            },
                            ..p.player_data.stats
                        },
                        ..p.player_data
                    },
                    ..p
                };
                proof {
                    assert(unit * count == (unit as int) * (count as int)) by (nonlinear_arith);
                    if exact > u64::MAX && unit > 0 {
                        assert(unit * exact > u32::MAX) by (nonlinear_arith)
                            requires
                                exact > u64::MAX,
                                unit >= 1,
                        ;
                        assert(unit * count > u32::MAX) by (nonlinear_arith)
                            requires
                                count == u64::MAX,
                                unit >= 1,
                        ;
                    }
                    if unit == 0 {
                        assert(unit * exact == 0) by (nonlinear_arith)
                            requires
                                unit == 0,
                        ;
                    }
                    assert(updated == credited(
                        p,
                        unit * exact,
                        exact as int,
                        if costly {
                            exact as int
                        } else {
                            0
                        },
                    ));
                }
                let transform = self.objects[index].transform;
                let velocity = self.objects[index].velocity.value;
                let acceleration = self.objects[index].acceleration.value;
                self.change_ship(index, updated, transform, velocity, acceleration, Ghost(f));
            },
            _ => {},
        }
    }
}

/// Some of the first `n` entries of `list` name a bullet exactly when their
/// count is not zero.
pub proof fn lemma_bullets_among_positive(objects: Seq<ObjectView>, list: Seq<Entity>, n: int)
    requires
        0 <= n <= list.len(),
    ensures
        bullets_among(objects, list, n) > 0 <==> exists|q: int|
            0 <= q < n && names_bullet(objects, #[trigger] list[q]),
    decreases n,
{
    if n > 0 {
        lemma_bullets_among_positive(objects, list, n - 1);
        if names_bullet(objects, list[n - 1]) {
        } else if bullets_among(objects, list, n - 1) > 0 {
            let q = choose|q: int| 0 <= q < n - 1 && names_bullet(objects, #[trigger] list[q]);
            assert(0 <= q < n && names_bullet(objects, list[q]));
        } else {
            assert forall|q: int| 0 <= q < n implies !names_bullet(objects, #[trigger] list[q]) by {
                if q < n - 1 {
                    assert(!names_bullet(objects, list[q]));
                }
            }
        }
    }
}

/// One more entry of the ship's overlaps is looked at.
pub proof fn lemma_rammed_step(objects: Seq<ObjectView>, ship: ObjectView, entity: Entity, n: int)
    requires
        0 <= n < ship.overlaps.len(),
    ensures
        rammed_within(objects, ship, entity, n + 1) <==> rammed_within(objects, ship, entity, n) || (
        names_asteroid(objects, entity) && ship.overlaps[n] == entity && asteroids_among(
            objects,
            ship.overlaps,
            n,
        ) < spare_lives(ship)),
{
    if rammed_within(objects, ship, entity, n + 1) {
        let q = choose|q: int|
            0 <= q < n + 1 && #[trigger] ship.overlaps[q] == entity && asteroids_among(
                objects,
                ship.overlaps,
                q,
            ) < spare_lives(ship);
        if q < n {
            assert(rammed_within(objects, ship, entity, n));
        }
    }
    if rammed_within(objects, ship, entity, n) {
        let q = choose|q: int|
            0 <= q < n && #[trigger] ship.overlaps[q] == entity && asteroids_among(
                objects,
                ship.overlaps,
                q,
            ) < spare_lives(ship);
        assert(0 <= q < n + 1 && ship.overlaps[q] == entity);
    }
    if names_asteroid(objects, entity) && ship.overlaps[n] == entity && asteroids_among(
        objects,
        ship.overlaps,
        n,
    ) < spare_lives(ship) {
        assert(0 <= n < n + 1 && ship.overlaps[n] == entity);
    }
}

impl World {
    /// Judges the overlaps recorded on the hazards. Each overlap of a hazard
    /// with a bullet credits the ship one hazard and [`SHOT_POINTS`]; the
    /// hazard and the bullet are returned for removal. An overlap of two
    /// hazards has no effect. Without a ship nothing is credited and nothing
    /// returned.
    pub fn handle_asteroid_collisions(&mut self) -> (doomed: Vec<Entity>)
        requires
            old(self).wf(),
        ensures
            final(self).wf(),
            final(self).next_id() == old(self).next_id(),
            final(self)@ == after_shots(old(self)@),
            doomed@ == shot_down(old(self)@),
    {
        let ship_at: usize = match self.find_player() {
            Some(i) => i,
            None => {
                return Vec::new();
            },
        };
        let n: usize = self.objects.len();
        let ghost objects = self@;
        let ghost doomed_by = |o: ObjectView| shot(objects, o) || spent(objects, o.id);
        let mut flags: Vec<bool> = Vec::new();
        let mut hits: u64 = 0;
        let mut i: usize = 0;
        while i < n
            invariant
                i <= n,
                n == self.objects.len(),
                objects == self@,
                self.wf(),
                flags.len() == i,
                hits == saturated(bullet_hits(objects, i as int)),
                forall|k: int|
                    0 <= k < i ==> #[trigger] flags[k] == (shot(objects, objects[k]) || spent(
                        objects,
                        objects[k].id,
                    )),
            decreases n - i,
        {
            let ghost o = objects[i as int];
            assert(o == self.objects[i as int]@);
            let mut flag: bool = false;
            if self.objects[i].kind.is_asteroid() {
                let count: u64 = self.count_bullets(i);
                hits = hits.saturating_add(count);
                flag = count > 0;
                proof {
                    lemma_bullets_among_positive(objects, o.overlaps, o.overlaps.len() as int);
                    if names_bullet(objects, o.id) {
                        let k = choose|k: int|
                            0 <= k < objects.len() && (#[trigger] objects[k]).id == o.id
                                && objects[k].is_player_bullet();
                        assert(k == i);
                    }
                }
            } else if self.objects[i].kind.is_player_bullet() {
                flag = self.named_by_asteroid(self.objects[i].id);
                assert(names_bullet(objects, o.id));
            } else {
                proof {
                    if names_bullet(objects, o.id) {
                        let k = choose|k: int|
                            0 <= k < objects.len() && (#[trigger] objects[k]).id == o.id
                                && objects[k].is_player_bullet();
                        assert(k == i);
                    }
                }
            }
            flags.push(flag);
            i += 1;
        }
        let doomed: Vec<Entity> = self.flagged(&flags, Ghost(doomed_by));
        proof {
            lemma_ship_is_unique(objects, self.next_id, ship_at as int);
        }
        self.credit(ship_at, hits, Ghost(bullet_hits(objects, n as int)), SHOT_POINTS, false);
        doomed
    }

    /// Judges the overlaps recorded on the ship, in their order. A hazard
    /// met while the ship has more than one life costs a life and credits
    /// one hazard and [`CRASH_POINTS`]; it is returned for removal. A hazard
    /// met with one life left, or none, takes nothing: the game is over.
    /// Without a ship nothing happens.
    pub fn handle_player_collisions(&mut self) -> (crash: Crash)
        requires
            old(self).wf(),
        ensures
            final(self).wf(),
            final(self).next_id() == old(self).next_id(),
            final(self)@ == after_crashes(old(self)@),
            crash.doomed@ == wrecked(old(self)@),
            crash.game_over == game_lost(old(self)@),
    {
        let ship_at: usize = match self.find_player() {
            Some(i) => i,
            None => {
                return Crash { doomed: Vec::new(), game_over: false };
            },
        };
        let n: usize = self.objects.len();
        let ghost objects = self@;
        let ghost vessel = objects[ship_at as int];
        proof {
            lemma_ship_is_unique(objects, self.next_id, ship_at as int);
            assert(vessel == self.objects[ship_at as int]@);
        }
        let spare: u32 = match self.objects[ship_at].kind {
            EntityKind::Player(p) => if p.player_data.lives > 1 {
                p.player_data.lives - 1
            } else {
                0
            },
            _ => 0,
        };
        let mut flags: Vec<bool> = Vec::new();
        let mut k: usize = 0;
        while k < n
            invariant
                k <= n,
                flags.len() == k,
                forall|t: int| 0 <= t < k ==> !#[trigger] flags[t],
            decreases n - k,
        {
            flags.push(false);
            k += 1;
        }
        let len: usize = self.objects[ship_at].collider.colliding_entities.len();
        let mut seen: u64 = 0;
        let mut survived: u32 = 0;
        let mut q: usize = 0;
        while q < len
            invariant
                q <= len,
                ship_at < n,
                n == self.objects.len(),
                objects == self@,
                self.wf(),
                vessel == objects[ship_at as int],
                vessel.overlaps == self.objects[ship_at as int].collider.colliding_entities@,
                len == vessel.overlaps.len(),
                spare == spare_lives(vessel),
                flags.len() == n,
                seen == saturated(asteroids_among(objects, vessel.overlaps, q as int)),
                survived == if asteroids_among(objects, vessel.overlaps, q as int) < spare {
                    asteroids_among(objects, vessel.overlaps, q as int)
                } else {
                    spare as nat
                },
                forall|t: int|
                    0 <= t < n ==> #[trigger] flags[t] == rammed_within(
                        objects,
                        vessel,
                        objects[t].id,
                        q as int,
                    ),
            decreases len - q,
        {
            let entity: Entity = self.objects[ship_at].collider.colliding_entities[q];
            proof {
                assert forall|t: int| 0 <= t < n implies (rammed_within(
                    objects,
                    vessel,
                    #[trigger] objects[t].id,
                    q as int + 1,
                ) <==> rammed_within(objects, vessel, objects[t].id, q as int) || (names_asteroid(
                    objects,
                    objects[t].id,
                ) && entity == objects[t].id && asteroids_among(objects, vessel.overlaps, q as int)
                    < spare)) by {
                    lemma_rammed_step(objects, vessel, objects[t].id, q as int);
                }
            }
            match self.index_of(entity) {
                Some(j) => {
                    assert(objects[j as int] == self.objects[j as int]@);
                    if self.objects[j].kind.is_asteroid() {
                        assert(names_asteroid(objects, entity));
                        if seen < spare as u64 {
                            flags.set(j, true);
                            survived = survived + 1;
                        }
                        seen = seen.saturating_add(1);
                    } else {
                        assert(!names_asteroid(objects, entity));
                    }
                },
                None => {
                    assert(!names_asteroid(objects, entity));
                },
            }
            q += 1;
        }
        let ghost doomed_by = |o: ObjectView| rammed(objects, ship(objects), o.id);
        let doomed: Vec<Entity> = self.flagged(&flags, Ghost(doomed_by));
        self.credit(ship_at, survived as u64, Ghost(absorbed(objects, vessel)), CRASH_POINTS, true);
        Crash { doomed, game_over: seen > spare as u64 }
    }

    /// Removes the objects that `doomed` names. A name without an object is
    /// passed over.
    pub fn despawn_all(&mut self, doomed: &Vec<Entity>)
        requires
            old(self).wf(),
        ensures
            final(self).wf(),
            final(self).next_id() == old(self).next_id(),
            final(self)@ == without(old(self)@, doomed@),
    {
        let n: usize = self.objects.len();
        let mut keep: Vec<bool> = Vec::new();
        let mut i: usize = 0;
        while i < n
            invariant
                i <= n,
                n == self.objects.len(),
                keep.len() == i,
                forall|k: int| 0 <= k < i ==> #[trigger] keep[k] == !doomed@.contains(self@[k].id),
            decreases n - i,
        {
            assert(self@[i as int].id == self.objects[i as int].id);
            let named: bool = list_contains(doomed, self.objects[i].id);
            keep.push(!named);
            i += 1;
        }
        self.retain(&keep, Ghost(|o: ObjectView| !doomed@.contains(o.id)));
    }
}

/// At most `n` of the first `n` entries of `list` name a hazard, and some do
/// exactly when their count is not zero.
pub proof fn lemma_asteroids_among_bounds(objects: Seq<ObjectView>, list: Seq<Entity>, n: int)
    requires
        0 <= n <= list.len(),
    ensures
        asteroids_among(objects, list, n) <= n,
        asteroids_among(objects, list, n) > 0 <==> exists|q: int|
            0 <= q < n && names_asteroid(objects, #[trigger] list[q]),
    decreases n,
{
    if n > 0 {
        lemma_asteroids_among_bounds(objects, list, n - 1);
        if names_asteroid(objects, list[n - 1]) {
        } else if asteroids_among(objects, list, n - 1) > 0 {
            let q = choose|q: int| 0 <= q < n - 1 && names_asteroid(objects, #[trigger] list[q]);
            assert(0 <= q < n && names_asteroid(objects, list[q]));
        } else {
            assert forall|q: int| 0 <= q < n implies !names_asteroid(objects, #[trigger] list[q]) by {
                if q < n - 1 {
                    assert(!names_asteroid(objects, list[q]));
                }
            }
        }
    }
}

/// Where no hazard among the first `n` objects has a bullet in its recorded
/// overlaps, no hit is counted.
pub proof fn lemma_no_shot_no_hits(objects: Seq<ObjectView>, n: int)
    requires
        0 <= n <= objects.len(),
        forall|i: int| 0 <= i < objects.len() ==> !shot(objects, #[trigger] objects[i]),
    ensures
        bullet_hits(objects, n) == 0,
    decreases n,
{
    if n > 0 {
        lemma_no_shot_no_hits(objects, n - 1);
        let o = objects[n - 1];
        assert(!shot(objects, o));
        lemma_bullets_among_positive(objects, o.overlaps, o.overlaps.len() as int);
    }
}

/// Overlaps between hazards are without effect. In a store where every
/// overlap recorded on a hazard names a hazard, the judging of the hazards'
/// overlaps leaves the store as it is and dooms nothing: no score is given
/// and nothing is destroyed, whatever the ship touches.
pub proof fn lemma_hazards_pass_through_each_other(objects: Seq<ObjectView>, next_id: u64)
    requires
        store_wf(objects, next_id),
        forall|i: int, q: int|
            0 <= i < objects.len() && (#[trigger] objects[i]).is_asteroid() && 0 <= q
                < objects[i].overlaps.len() ==> names_asteroid(objects, #[trigger] objects[i].overlaps[q]),
    ensures
        after_shots(objects) == objects,
        shot_down(objects) == Seq::<Entity>::empty(),
        without(objects, shot_down(objects)) == objects,
{
    assert forall|e: Entity| names_asteroid(objects, e) implies !names_bullet(objects, e) by {
        if names_bullet(objects, e) {
            let a = choose|a: int|
                0 <= a < objects.len() && (#[trigger] objects[a]).id == e && objects[a].is_asteroid();
            let b = choose|b: int|
                0 <= b < objects.len() && (#[trigger] objects[b]).id == e && objects[b].is_player_bullet();
            assert(a == b);
        }
    }
    assert forall|i: int| 0 <= i < objects.len() implies !shot(objects, #[trigger] objects[i]) by {
        let o = objects[i];
        if shot(objects, o) {
            let q = choose|q: int| 0 <= q < o.overlaps.len() && names_bullet(objects, #[trigger] o.overlaps[q]);
            assert(names_asteroid(objects, objects[i].overlaps[q]));
        }
    }
    assert forall|i: int| 0 <= i < objects.len() implies !spent(objects, (#[trigger] objects[i]).id) by {
        let e = objects[i].id;
        if spent(objects, e) {
            let a = choose|a: int|
                0 <= a < objects.len() && (#[trigger] objects[a]).is_asteroid() && objects[a].overlaps.contains(
                    e,
                );
            let q = choose|q: int| 0 <= q < objects[a].overlaps.len() && objects[a].overlaps[q] == e;
            assert(names_asteroid(objects, objects[a].overlaps[q]));
        }
    }
    lemma_no_shot_no_hits(objects, objects.len() as int);
    if has_player(objects) {
        assert(after_shots(objects) =~= objects);
        let doomed_by = |o: ObjectView| shot(objects, o) || spent(objects, o.id);
        lemma_filter_none(objects, doomed_by);
        assert(condemned(objects, doomed_by) =~= Seq::<Entity>::empty());
    }
    let none = Seq::<Entity>::empty();
    lemma_filter_all(objects, |o: ObjectView| !none.contains(o.id));
}

/// A ship that touches no hazard is safe. In a store where no overlap
/// recorded on the ship names a hazard, the judging of the ship's overlaps
/// leaves the store as it is, dooms nothing, and does not end the game.
pub proof fn lemma_untouched_ship_is_safe(objects: Seq<ObjectView>)
    requires
        forall|i: int, q: int|
            0 <= i < objects.len() && (#[trigger] objects[i]).is_player() && 0 <= q
                < objects[i].overlaps.len() ==> !names_asteroid(objects, #[trigger] objects[i].overlaps[q]),
    ensures
        after_crashes(objects) == objects,
        wrecked(objects) == Seq::<Entity>::empty(),
        !game_lost(objects),
        without(objects, wrecked(objects)) == objects,
{
    if has_player(objects) {
        let vessel = ship(objects);
        let at = ship_index(objects);
        assert(0 <= at < objects.len() && objects[at].is_player());
        lemma_asteroids_among_bounds(objects, vessel.overlaps, vessel.overlaps.len() as int);
        if crashes(objects, vessel) > 0 {
            let q = choose|q: int|
                0 <= q < vessel.overlaps.len() && names_asteroid(objects, #[trigger] vessel.overlaps[q]);
            assert(!names_asteroid(objects, objects[at].overlaps[q]));
        }
        assert(absorbed(objects, vessel) == 0);
        assert(after_crashes(objects) =~= objects);
        let rammed_by = |o: ObjectView| rammed(objects, ship(objects), o.id);
        assert forall|i: int| 0 <= i < objects.len() implies !rammed_by(#[trigger] objects[i]) by {
            let e = objects[i].id;
            if rammed(objects, vessel, e) {
                let q = choose|q: int|
                    0 <= q < vessel.overlaps.len() && #[trigger] vessel.overlaps[q] == e && asteroids_among(
                        objects,
                        vessel.overlaps,
                        q,
                    ) < spare_lives(vessel);
                assert(!names_asteroid(objects, objects[at].overlaps[q]));
            }
        }
        lemma_filter_none(objects, rammed_by);
        assert(condemned(objects, rammed_by) =~= Seq::<Entity>::empty());
    }
    let none = Seq::<Entity>::empty();
    lemma_filter_all(objects, |o: ObjectView| !none.contains(o.id));
}

/// The last life is never taken. Through the judging of its overlaps a ship
/// with lives left keeps at least one. A ship with one life that rammed a
/// hazard keeps that life and all its data, no hazard is destroyed, and the
/// game is lost.
pub proof fn lemma_last_life_is_kept(objects: Seq<ObjectView>, next_id: u64, player: Player)
    requires
        store_wf(objects, next_id),
        player_of(objects) == Some(player),
    ensures
        (player_of(after_crashes(objects)) is Some),
        player.player_data.lives >= 1 ==> player_of(after_crashes(objects)).unwrap().player_data.lives >= 1,
        player.player_data.lives == 1 && crashes(objects, ship(objects)) >= 1 ==> (player_of(
            after_crashes(objects),
        ) == Some(player) && game_lost(objects) && wrecked(objects).len() == 0),
{
    let at = ship_index(objects);
    let vessel = ship(objects);
    let after = after_crashes(objects);
    let survived = absorbed(objects, vessel);
    assert(0 <= at < objects.len() && objects[at].is_player());
    assert(after[at].is_player());
    lemma_same_ids_wf(objects, after, next_id);
    lemma_ship_is_unique(after, next_id, at);
    if player.player_data.lives == 1 && crashes(objects, vessel) >= 1 {
        assert(survived == 0);
        assert(CRASH_POINTS * survived == 0);
        let rammed_by = |o: ObjectView| rammed(objects, ship(objects), o.id);
        assert forall|i: int| 0 <= i < objects.len() implies !rammed_by(#[trigger] objects[i]) by {}
        lemma_filter_none(objects, rammed_by);
        assert(condemned(objects, rammed_by) =~= Seq::<Entity>::empty());
    }
}

} // verus!
