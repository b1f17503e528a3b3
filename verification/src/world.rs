//! The entity store.
//!
//! A [`World`] holds the simulated objects in the order they were spawned.
//! Each has an identifier that is never given out twice, a kind, and the
//! components of a moving object.

use vstd::prelude::*;
use crate::asteroids::Asteroid;
use crate::bullets::Bullet;
use crate::collisions::Collider;
use crate::fixed::Vec2;
use crate::movement::{Acceleration, MovingObjectBundle, Velocity};
use crate::player::{Player, PlayerBullet};

verus! {

/// Identifies an object of a [`World`].
#[derive(Clone, Copy, Debug, PartialEq, Eq, Structural)]
pub struct Entity(pub u64);

/// Where an object is, which way it points, and how large it is drawn.
#[derive(Clone, Copy, Debug, PartialEq, Eq, Structural)]
pub struct Transform {
    pub translation: Vec2,
    /// Angle, counter-clockwise.
    pub rotation: i64,
    pub scale: i64,
}

/// What an object is.
#[derive(Clone, Copy, Debug, PartialEq, Eq, Structural)]
pub enum EntityKind {
    Player(Player),
    Asteroid(Asteroid),
    PlayerBullet(PlayerBullet),
    Bullet(Bullet),
}

impl EntityKind {
    #[verifier::when_used_as_spec(spec_is_player)]
    pub fn is_player(&self) -> (b: bool)
        ensures
            b == self.spec_is_player(),
    {
        match self {
            EntityKind::Player(_) => true,
            _ => false,
        }
    }

    pub open spec fn spec_is_player(&self) -> bool {
        self is Player
    }

    #[verifier::when_used_as_spec(spec_is_asteroid)]
    pub fn is_asteroid(&self) -> (b: bool)
        ensures
            b == self.spec_is_asteroid(),
    {
        match self {
            EntityKind::Asteroid(_) => true,
            _ => false,
        }
    }

    pub open spec fn spec_is_asteroid(&self) -> bool {
        self is Asteroid
    }

    #[verifier::when_used_as_spec(spec_is_player_bullet)]
    pub fn is_player_bullet(&self) -> (b: bool)
        ensures
            b == self.spec_is_player_bullet(),
    {
        match self {
            EntityKind::PlayerBullet(_) => true,
            _ => false,
        }
    }

    pub open spec fn spec_is_player_bullet(&self) -> bool {
        self is PlayerBullet
    }

    #[verifier::when_used_as_spec(spec_is_bullet)]
    pub fn is_bullet(&self) -> (b: bool)
        ensures
            b == self.spec_is_bullet(),
    {
        match self {
            EntityKind::Bullet(_) => true,
            _ => false,
        }
    }

    pub open spec fn spec_is_bullet(&self) -> bool {
        self is Bullet
    }
}

/// One simulated object.
#[derive(Debug)]
pub struct Object {
    pub id: Entity,
    pub kind: EntityKind,
    pub transform: Transform,
    pub velocity: Velocity,
    pub acceleration: Acceleration,
    pub collider: Collider,
}

/// An object as the contracts see it.
pub struct ObjectView {
    pub id: Entity,
    pub kind: EntityKind,
    pub transform: Transform,
    pub velocity: Vec2,
    pub acceleration: Vec2,
    /// Radius of the collider.
    pub radius: i64,
    /// The collider's recorded overlaps.
    pub overlaps: Seq<Entity>,
}

impl ObjectView {
    pub open spec fn is_player(self) -> bool {
        self.kind is Player
    }

    pub open spec fn is_asteroid(self) -> bool {
        self.kind is Asteroid
    }

    pub open spec fn is_player_bullet(self) -> bool {
        self.kind is PlayerBullet
    }
}

impl View for Object {
    type V = ObjectView;

    open spec fn view(&self) -> ObjectView {
        ObjectView {
            id: self.id,
            kind: self.kind,
            transform: self.transform,
            velocity: self.velocity.value,
            acceleration: self.acceleration.value,
            radius: self.collider.radius,
            overlaps: self.collider.colliding_entities@,
        }
    }
}

/// The identifiers are below `next_id` and pairwise distinct, and at most one
/// object is the ship.
pub open spec fn store_wf(objects: Seq<ObjectView>, next_id: u64) -> bool {
    &&& forall|i: int| 0 <= i < objects.len() ==> (#[trigger] objects[i]).id.0 < next_id
    &&& forall|i: int, j: int|
        0 <= i < objects.len() && 0 <= j < objects.len() && (#[trigger] objects[i]).id == (
        #[trigger] objects[j]).id ==> i == j
    &&& forall|i: int, j: int|
        0 <= i < objects.len() && 0 <= j < objects.len() && (#[trigger] objects[i]).is_player() && (
        #[trigger] objects[j]).is_player() ==> i == j
}

/// The object that a spawn makes of its arguments.
pub open spec fn object_of(id: Entity, kind: EntityKind, bundle: MovingObjectBundle) -> ObjectView {
    ObjectView {
        id,
        kind,
        transform: bundle.transform,
        velocity: bundle.velocity.value,
        acceleration: bundle.acceleration.value,
        radius: bundle.collider.radius,
        overlaps: bundle.collider.colliding_entities@,
    }
}

/// Some object is the ship.
pub open spec fn has_player(objects: Seq<ObjectView>) -> bool {
    exists|i: int| 0 <= i < objects.len() && (#[trigger] objects[i]).is_player()
}

/// The position of the ship in a store that has one.
pub open spec fn ship_index(objects: Seq<ObjectView>) -> int {
    choose|i: int| 0 <= i < objects.len() && (#[trigger] objects[i]).is_player()
}

/// The ship of a store that has one.
pub open spec fn ship(objects: Seq<ObjectView>) -> ObjectView {
    objects[ship_index(objects)]
}

/// The ship's data, if there is a ship.
pub open spec fn player_of(objects: Seq<ObjectView>) -> Option<Player> {
    if has_player(objects) {
        match ship(objects).kind {
            EntityKind::Player(p) => Some(p),
            _ => None,
        }
    } else {
        None
    }
}

/// Some object has the identifier `entity`.
pub open spec fn holds(objects: Seq<ObjectView>, entity: Entity) -> bool {
    exists|i: int| 0 <= i < objects.len() && (#[trigger] objects[i]).id == entity
}

/// Whether a store takes one more object of the given kind: an identifier
/// must be left, and a second ship is refused.
pub open spec fn admits(objects: Seq<ObjectView>, next_id: u64, kind: EntityKind) -> bool {
    next_id < u64::MAX && !(kind is Player && has_player(objects))
}

/// The size of the window, in scalars.
#[derive(Clone, Copy, Debug, PartialEq, Eq, Structural)]
pub struct Viewport {
    pub width: u32,
    pub height: u32,
}

impl Viewport {
    /// The middle of the window.
    #[verifier::when_used_as_spec(spec_center)]
    pub fn center(self) -> (c: Vec2)
        ensures
            c == self.spec_center(),
    {
        Vec2 { x: (self.width / 2) as i64, y: (self.height / 2) as i64 }
    }

    pub open spec fn spec_center(self) -> Vec2 {
        Vec2 { x: (self.width / 2) as i64, y: (self.height / 2) as i64 }
    }
}

/// The entity store.
#[derive(Debug)]
pub struct World {
    pub(crate) objects: Vec<Object>,
    pub(crate) next_id: u64,
}

impl View for World {
    type V = Seq<ObjectView>;

    open(crate) spec fn view(&self) -> Seq<ObjectView> {
        self.objects@.map_values(|o: Object| o@)
    }
}

impl World {
    /// The identifier the next spawned object gets.
    pub open(crate) spec fn next_id(&self) -> u64 {
        self.next_id
    }

    /// The store is well-formed: see [`store_wf`].
    pub open spec fn wf(&self) -> bool {
        store_wf(self@, self.next_id())
    }

    /// An empty store.
    pub fn new() -> (world: World)
        ensures
            world.wf(),
            world@ == Seq::<ObjectView>::empty(),
            world.next_id() == 0,
    {
        let world = World { objects: Vec::new(), next_id: 0 };
        assert(world@ =~= Seq::<ObjectView>::empty());
        world
    }

    /// The number of objects.
    pub fn len(&self) -> (n: usize)
        ensures
            n == self@.len(),
    {
        self.objects.len()
    }

    /// The object at position `index`, in spawning order.
    pub fn object(&self, index: usize) -> (o: &Object)
        requires
            index < self@.len(),
        ensures
            o@ == self@[index as int],
    {
        &self.objects[index]
    }

    /// The position of the object with the identifier `entity`.
    pub fn index_of(&self, entity: Entity) -> (found: Option<usize>)
        ensures
            found matches Some(i) ==> i < self@.len() && self@[i as int].id == entity && forall|k: int|
                0 <= k < i ==> (#[trigger] self@[k]).id != entity,
            found is None <==> !holds(self@, entity),
    {
        let n: usize = self.objects.len();
        let mut i: usize = 0;
        while i < n
            invariant
                i <= n,
                n == self.objects.len(),
                forall|k: int| 0 <= k < i ==> (#[trigger] self@[k]).id != entity,
            decreases n - i,
        {
            if self.objects[i].id == entity {
                assert(self@[i as int].id == entity);
                return Some(i);
            }
            i += 1;
        }
        None
    }

    /// The object with the identifier `entity`: the first one in the store
    /// that has it.
    pub fn get(&self, entity: Entity) -> (found: Option<&Object>)
        ensures
            found matches Some(o) ==> exists|i: int|
                0 <= i < self@.len() && o@ == #[trigger] self@[i] && o.id == entity && forall|k: int|
                    0 <= k < i ==> (#[trigger] self@[k]).id != entity,
            found is None <==> !holds(self@, entity),
    {
        match self.index_of(entity) {
            Some(i) => {
                assert(self@[i as int] == self.objects[i as int]@);
                Some(&self.objects[i])
            },
            None => None,
        }
    }

    /// The position of the ship: the first object that is one.
    pub fn find_player(&self) -> (found: Option<usize>)
        ensures
            found matches Some(i) ==> i < self@.len() && self@[i as int].is_player() && forall|k: int|
                0 <= k < i ==> !(#[trigger] self@[k]).is_player(),
            found is None <==> !has_player(self@),
    {
        let n: usize = self.objects.len();
        let mut i: usize = 0;
        while i < n
            invariant
                i <= n,
                n == self.objects.len(),
                forall|k: int| 0 <= k < i ==> !(#[trigger] self@[k]).is_player(),
            decreases n - i,
        {
            if self.objects[i].kind.is_player() {
                assert(self@[i as int].is_player());
                return Some(i);
            }
            i += 1;
        }
        None
    }

    /// The position of the ship and its data, if there is a ship.
    pub fn ship_at(&self) -> (found: Option<(usize, Player)>)
        requires
            self.wf(),
        ensures
            found matches Some((i, p)) ==> i < self@.len() && i == ship_index(self@) && self@[i as int].kind
                == EntityKind::Player(p),
            found is None <==> !has_player(self@),
    {
        match self.find_player() {
            Some(i) => {
                proof {
                    lemma_ship_is_unique(self@, self.next_id(), i as int);
                    assert(self@[i as int].kind == self.objects[i as int].kind);
                }
                match self.objects[i].kind {
                    EntityKind::Player(p) => Some((i, p)),
                    _ => None,
                }
            },
            None => None,
        }
    }

    /// The ship's data, if there is a ship.
    pub fn player(&self) -> (found: Option<Player>)
        requires
            self.wf(),
        ensures
            found == player_of(self@),
    {
        match self.find_player() {
            Some(i) => {
                proof {
                    lemma_ship_is_unique(self@, self.next_id(), i as int);
                    assert(self@[i as int].kind == self.objects[i as int].kind);
                }
                match self.objects[i].kind {
                    EntityKind::Player(p) => Some(p),
                    _ => None,
                }
            },
            None => None,
        }
    }

    /// Adds an object and returns its identifier, or returns `None` and
    /// changes nothing where the store does not admit it.
    pub fn spawn(&mut self, kind: EntityKind, bundle: MovingObjectBundle) -> (spawned: Option<Entity>)
        requires
            old(self).wf(),
        ensures
            final(self).wf(),
            admits(old(self)@, old(self).next_id(), kind) ==> {
                &&& spawned == Some(Entity(old(self).next_id()))
                &&& final(self)@ == old(self)@.push(
                    object_of(Entity(old(self).next_id()), kind, bundle),
                )
                &&& final(self).next_id() == old(self).next_id() + 1
            },
            !admits(old(self)@, old(self).next_id(), kind) ==> {
                &&& spawned is None
                &&& final(self)@ == old(self)@
                &&& final(self).next_id() == old(self).next_id()
            },
    {
        if self.next_id == u64::MAX {
            return None;
        }
        if kind.is_player() {
            if self.find_player().is_some() {
                return None;
            }
        }
        let id = Entity(self.next_id);
        let object = Object {
            id,
            kind,
            transform: bundle.transform,
            velocity: bundle.velocity,
            acceleration: bundle.acceleration,
            collider: bundle.collider,
        };
        self.next_id = self.next_id + 1;
        self.objects.push(object);
        assert(self@ =~= old(self)@.push(object_of(id, kind, bundle)));
        Some(id)
    }

    /// Removes the object with the identifier `entity`, if there is one.
    pub fn despawn(&mut self, entity: Entity) -> (removed: bool)
        requires
            old(self).wf(),
        ensures
            final(self).wf(),
            removed == holds(old(self)@, entity),
            final(self)@ == old(self)@.filter(|o: ObjectView| o.id != entity),
            final(self).next_id() == old(self).next_id(),
    {
        let n: usize = self.objects.len();
        let mut keep: Vec<bool> = Vec::new();
        let mut found: bool = false;
        let mut i: usize = 0;
        while i < n
            invariant
                i <= n,
                n == self.objects.len(),
                keep.len() == i,
                forall|k: int| 0 <= k < i ==> #[trigger] keep[k] == (self@[k].id != entity),
                found == exists|k: int| 0 <= k < i && (#[trigger] self@[k]).id == entity,
            decreases n - i,
        {
            let differs: bool = !(self.objects[i].id == entity);
            assert(self@[i as int].id == self.objects[i as int].id);
            if !differs {
                found = true;
            }
            keep.push(differs);
            i += 1;
        }
        self.retain(&keep, Ghost(|o: ObjectView| o.id != entity));
        found
    }

    /// Removes every object.
    pub fn clear(&mut self)
        ensures
            final(self).wf(),
            final(self)@ == Seq::<ObjectView>::empty(),
            final(self).next_id() == old(self).next_id(),
    {
        self.objects.clear();
        assert(self@ =~= Seq::<ObjectView>::empty());
    }

    /// Gives the ship at `index` new data, a new transform, a new velocity
    /// and a new acceleration, which are what `f` makes of the ship. As `f`
    /// leaves every other object as it is, the store is then what `f` makes
    /// of each of its objects.
    pub(crate) fn change_ship(
        &mut self,
        index: usize,
        player: Player,
        transform: Transform,
        velocity: Vec2,
        acceleration: Vec2,
        Ghost(f): Ghost<spec_fn(ObjectView) -> ObjectView>,
    )
        requires
            old(self).wf(),
            index < old(self)@.len(),
            old(self)@[index as int].is_player(),
            f(old(self)@[index as int]) == (ObjectView {
                kind: EntityKind::Player(player),
                transform,
                velocity,
                acceleration,
                ..old(self)@[index as int]
            }),
            forall|o: ObjectView| !o.is_player() ==> #[trigger] f(o) == o,
        ensures
            final(self).wf(),
            final(self).next_id() == old(self).next_id(),
            final(self)@ == old(self)@.map_values(f),
    {
        let ghost before = self@;
        assert(before[index as int] == self.objects[index as int]@);
        self.objects[index].kind = EntityKind::Player(player);
        self.objects[index].transform = transform;
        self.objects[index].velocity.value = velocity;
        self.objects[index].acceleration.value = acceleration;
        proof {
            assert forall|k: int| 0 <= k < before.len() && k != index implies #[trigger] self@[k]
                == before[k] by {
                assert(self.objects[k] == old(self).objects[k]);
                assert(before[k] == old(self).objects[k]@);
            }
            lemma_only_ship_changes(before, self@, self.next_id(), index as int, f);
            lemma_same_ids_wf(before, self@, self.next_id());
        }
    }

    /// Keeps the objects whose flag is set, in their order.
    pub(crate) fn retain(&mut self, keep: &Vec<bool>, Ghost(pred): Ghost<spec_fn(ObjectView) -> bool>)
        requires
            old(self).wf(),
            keep.len() == old(self)@.len(),
            forall|k: int| 0 <= k < keep.len() ==> #[trigger] keep[k] == pred(old(self)@[k]),
        ensures
            final(self).wf(),
            final(self)@ == old(self)@.filter(pred),
            final(self).next_id() == old(self).next_id(),
    {
        let n: usize = self.objects.len();
        let ghost before = self@;
        let mut k: usize = 0;
        let mut at: usize = 0;
        proof {
            assert(before.take(0) =~= Seq::<ObjectView>::empty());
            reveal(Seq::filter);
            assert(before.take(0).filter(pred) =~= Seq::<ObjectView>::empty());
            assert(before.skip(0) =~= before);
        }
        while k < n
            invariant
                k <= n,
                at <= k,
                n == before.len(),
                n == keep.len(),
                before == old(self)@,
                self.next_id == old(self).next_id,
                self.wf(),
                at == before.take(k as int).filter(pred).len(),
                self@ =~= before.take(k as int).filter(pred) + before.skip(k as int),
                forall|j: int| 0 <= j < keep.len() ==> #[trigger] keep[j] == pred(before[j]),
            decreases n - k,
        {
            proof {
                let head = before.take(k as int).filter(pred);
                let tail = before.skip(k as int);
                assert(tail.len() == n - k);
                assert(self@.len() == head.len() + tail.len());
                assert(self.objects.len() == self@.len());
                assert(before.take(k as int + 1) =~= before.take(k as int).push(before[k as int]));
                before.take(k as int).lemma_filter_push(before[k as int], pred);
                assert(self@[at as int] == tail[0]);
                assert(before.skip(k as int + 1) =~= tail.remove(0));
            }
            if keep[k] {
                at += 1;
            } else {
                let ghost prior = self@;
                self.objects.remove(at);
                proof {
                    assert(self@ =~= prior.remove(at as int));
                    lemma_remove_wf(prior, self.next_id, at as int);
                }
            }
            k += 1;
        }
        proof {
            assert(before.take(n as int) =~= before);
            assert(before.skip(n as int) =~= Seq::<ObjectView>::empty());
        }
    }
}

/// In a well-formed store the ship is the one object that is a ship.
pub proof fn lemma_ship_is_unique(objects: Seq<ObjectView>, next_id: u64, index: int)
    requires
        store_wf(objects, next_id),
        0 <= index < objects.len(),
        objects[index].is_player(),
    ensures
        has_player(objects),
        ship_index(objects) == index,
        ship(objects) == objects[index],
{
    let i = ship_index(objects);
    assert(0 <= i < objects.len() && objects[i].is_player());
}

/// Where only the ship has changed, and as `f` says, while `f` leaves every
/// other object as it is, the store is what `f` makes of each of its
/// objects.
pub proof fn lemma_only_ship_changes(
    before: Seq<ObjectView>,
    after: Seq<ObjectView>,
    next_id: u64,
    index: int,
    f: spec_fn(ObjectView) -> ObjectView,
)
    requires
        store_wf(before, next_id),
        0 <= index < before.len(),
        before[index].is_player(),
        after.len() == before.len(),
        after[index] == f(before[index]),
        forall|k: int| 0 <= k < before.len() && k != index ==> #[trigger] after[k] == before[k],
        forall|o: ObjectView| !o.is_player() ==> #[trigger] f(o) == o,
    ensures
        after == before.map_values(f),
{
    let mapped = before.map_values(f);
    assert forall|k: int| 0 <= k < before.len() implies after[k] == mapped[k] by {
        if k != index {
            assert(!before[k].is_player());
            assert(after[k] == before[k]);
        }
    }
    assert(after =~= mapped);
}

/// In a store without a ship, what leaves every object but the ship as it is
/// changes nothing.
pub proof fn lemma_no_ship_no_change(objects: Seq<ObjectView>, f: spec_fn(ObjectView) -> ObjectView)
    requires
        !has_player(objects),
        forall|o: ObjectView| !o.is_player() ==> #[trigger] f(o) == o,
    ensures
        objects.map_values(f) == objects,
{
    let mapped = objects.map_values(f);
    assert forall|k: int| 0 <= k < objects.len() implies mapped[k] == objects[k] by {
        assert(!objects[k].is_player());
    }
    assert(mapped =~= objects);
}

/// A store stays well-formed when an object leaves it.
pub proof fn lemma_remove_wf(objects: Seq<ObjectView>, next_id: u64, at: int)
    requires
        store_wf(objects, next_id),
        0 <= at < objects.len(),
    ensures
        store_wf(objects.remove(at), next_id),
{
    let rest = objects.remove(at);
    assert forall|i: int| 0 <= i < rest.len() implies (#[trigger] rest[i]).id.0 < next_id by {
        let k = if i < at { i } else { i + 1 };
        assert(rest[i] == objects[k]);
    }
    assert forall|i: int, j: int|
        0 <= i < rest.len() && 0 <= j < rest.len() && (#[trigger] rest[i]).id == (
        #[trigger] rest[j]).id implies i == j by {
        let a = if i < at { i } else { i + 1 };
        let b = if j < at { j } else { j + 1 };
        assert(rest[i] == objects[a] && rest[j] == objects[b]);
    }
    assert forall|i: int, j: int|
        0 <= i < rest.len() && 0 <= j < rest.len() && (#[trigger] rest[i]).is_player() && (
        #[trigger] rest[j]).is_player() implies i == j by {
        let a = if i < at { i } else { i + 1 };
        let b = if j < at { j } else { j + 1 };
        assert(rest[i] == objects[a] && rest[j] == objects[b]);
    }
}

/// A store stays well-formed when its objects change in place but keep their
/// identifiers and what they are.
pub proof fn lemma_same_ids_wf(before: Seq<ObjectView>, after: Seq<ObjectView>, next_id: u64)
    requires
        store_wf(before, next_id),
        after.len() == before.len(),
        forall|i: int|
            0 <= i < before.len() ==> (#[trigger] after[i]).id == before[i].id && after[i].is_player()
                == before[i].is_player(),
    ensures
        store_wf(after, next_id),
{
    assert forall|i: int| 0 <= i < after.len() implies (#[trigger] after[i]).id.0 < next_id by {
        assert(before[i].id.0 < next_id);
    }
    assert forall|i: int, j: int|
        0 <= i < after.len() && 0 <= j < after.len() && (#[trigger] after[i]).id == (
        #[trigger] after[j]).id implies i == j by {
        assert(before[i].id == before[j].id);
    }
    assert forall|i: int, j: int|
        0 <= i < after.len() && 0 <= j < after.len() && (#[trigger] after[i]).is_player() && (
        #[trigger] after[j]).is_player() implies i == j by {
        assert(before[i].is_player() && before[j].is_player());
    }
}

/// A filter that every object passes changes nothing.
pub proof fn lemma_filter_all(objects: Seq<ObjectView>, pred: spec_fn(ObjectView) -> bool)
    requires
        forall|i: int| 0 <= i < objects.len() ==> pred(#[trigger] objects[i]),
    ensures
        objects.filter(pred) == objects,
    decreases objects.len(),
{
    reveal(Seq::filter);
    if objects.len() > 0 {
        let head = objects.drop_last();
        assert forall|i: int| 0 <= i < head.len() implies pred(#[trigger] head[i]) by {
            assert(head[i] == objects[i]);
        }
        lemma_filter_all(head, pred);
        assert(head.push(objects.last()) =~= objects);
    }
}

/// A filter that no object passes leaves nothing.
pub proof fn lemma_filter_none(objects: Seq<ObjectView>, pred: spec_fn(ObjectView) -> bool)
    requires
        forall|i: int| 0 <= i < objects.len() ==> !pred(#[trigger] objects[i]),
    ensures
        objects.filter(pred) == Seq::<ObjectView>::empty(),
    decreases objects.len(),
{
    reveal(Seq::filter);
    if objects.len() > 0 {
        let head = objects.drop_last();
        assert forall|i: int| 0 <= i < head.len() implies !pred(#[trigger] head[i]) by {
            assert(head[i] == objects[i]);
        }
        lemma_filter_none(head, pred);
    }
}

/// What passes a filter was in the store, and what was in the store and
/// meets the condition passes.
pub proof fn lemma_filter_members(objects: Seq<ObjectView>, pred: spec_fn(ObjectView) -> bool)
    ensures
        forall|j: int|
            0 <= j < objects.filter(pred).len() ==> pred(#[trigger] objects.filter(pred)[j]) && exists|
                i: int,
            |
                0 <= i < objects.len() && #[trigger] objects[i] == objects.filter(pred)[j],
        forall|i: int|
            0 <= i < objects.len() && pred(#[trigger] objects[i]) ==> objects.filter(pred).contains(
                objects[i],
            ),
{
    let kept = objects.filter(pred);
    assert forall|j: int| 0 <= j < kept.len() implies pred(#[trigger] kept[j]) && exists|i: int|
        0 <= i < objects.len() && #[trigger] objects[i] == kept[j] by {
        objects.lemma_filter_pred(pred, j);
        assert(kept.contains(kept[j]));
        objects.lemma_filter_contains_rev(pred, kept[j]);
        let i = choose|i: int| 0 <= i < objects.len() && objects[i] == kept[j];
        assert(objects[i] == kept[j]);
    }
    assert forall|i: int| 0 <= i < objects.len() && pred(#[trigger] objects[i]) implies kept.contains(
        objects[i],
    ) by {
        objects.lemma_filter_contains(pred, i);
    }
}

} // verus!
