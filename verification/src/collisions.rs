//! Collision detection: which objects overlap which.

use vstd::prelude::*;
use bevy::utils::HashMap;
use crate::world::{store_wf, Entity, Object, ObjectView, World};

verus! {

/// A disc around an object's position, and the objects found overlapping it
/// by the last detection pass.
#[derive(Debug)]
pub struct Collider {
    pub radius: i64,
    pub colliding_entities: Vec<Entity>,
}

impl Collider {
    /// A collider with nothing recorded.
    pub fn new(radius: i64) -> (c: Collider)
        ensures
            c.radius == radius,
            c.colliding_entities@ == Seq::<Entity>::empty(),
    {
        Collider { radius, colliding_entities: Vec::new() }
    }
}

/// The two objects' discs intersect: the distance between their positions is
/// less than the sum of their radii.
pub open spec fn overlapping(a: ObjectView, b: ObjectView) -> bool {
    a.transform.translation.within(b.transform.translation, a.radius + b.radius)
}

/// The identifiers of the objects that overlap the object at `at`, taken from
/// the first `n` objects, in their order. No object overlaps itself.
pub open spec fn overlaps_of(objects: Seq<ObjectView>, at: int, n: int) -> Seq<Entity>
    decreases n,
{
    if n <= 0 {
        Seq::empty()
    } else {
        let before = overlaps_of(objects, at, n - 1);
        if n - 1 != at && overlapping(objects[at], objects[n - 1]) {
            before.push(objects[n - 1].id)
        } else {
            before
        }
    }
}

/// The store after a detection pass: each object's recorded overlaps are
/// replaced by the objects that overlap it now; nothing else changes.
pub open spec fn detected(objects: Seq<ObjectView>) -> Seq<ObjectView> {
    Seq::new(
        objects.len(),
        |i: int| ObjectView { overlaps: overlaps_of(objects, i, objects.len() as int), ..objects[i] },
    )
}

/// The two objects agree on everything but their recorded overlaps.
pub open spec fn same_but_overlaps(a: Object, b: Object) -> bool {
    &&& a.id == b.id
    &&& a.kind == b.kind
    &&& a.transform == b.transform
    &&& a.velocity == b.velocity
    &&& a.acceleration == b.acceleration
    &&& a.collider.radius == b.collider.radius
}

/// Whether two objects' discs intersect.
pub fn objects_overlap(a: &Object, b: &Object) -> (hit: bool)
    ensures
        hit == overlapping(a@, b@),
{
    let reach: i128 = a.collider.radius as i128 + b.collider.radius as i128;
    if reach <= 0 {
        false
    } else {
        a.transform.translation.is_within(b.transform.translation, reach as u64)
    }
}

/// The overlaps found while the pairs are scanned: for each object's
/// identifier, the objects found to overlap it so far. It is a
/// `bevy::utils::HashMap`, which Verus cannot look into. The map is held in
/// a struct of its own because its type cannot be declared to Verus: the
/// declaration would have to name the trait of the map's allocator, which is
/// not handed on.
#[verifier::external_body]
pub struct OverlapTable {
    table: HashMap<u64, Vec<Entity>>,
}

/// What a table holds: the lists, by their keys.
pub uninterp spec fn table_entries(table: OverlapTable) -> Map<u64, Seq<Entity>>;

/// A table without entries.
pub open spec fn no_entries() -> Map<u64, Seq<Entity>> {
    Map::empty()
}

/// The list under `key`, empty where the key has no entry.
pub open spec fn listed(entries: Map<u64, Seq<Entity>>, key: u64) -> Seq<Entity> {
    if entries.contains_key(key) {
        entries[key]
    } else {
        Seq::empty()
    }
}

/// `HashMap::new`: a map without entries.
#[verifier::external_body]
fn table_new() -> (table: OverlapTable)
    ensures
        table_entries(table) == no_entries(),
{
    OverlapTable { table: HashMap::new() }
}

/// `HashMap::entry` followed by `Entry::or_insert_with` with `Vec::new`: the
/// list under `key`, to be changed in place. A key without an entry gets an
/// empty list first. No other entry changes.
#[verifier::external_body]
fn table_entry(table: &mut OverlapTable, key: u64) -> (list: &mut Vec<Entity>)
    ensures
        list@ == listed(table_entries(*old(table)), key),
        table_entries(*final(table)) == table_entries(*old(table)).insert(key, final(list)@),
{
    table.table.entry(key).or_insert_with(Vec::new)
}

/// `HashMap::get`: the list under `key`, if the key has an entry.
#[verifier::external_body]
fn table_get(table: &OverlapTable, key: u64) -> (list: Option<&Vec<Entity>>)
    ensures
        (list is Some) == table_entries(*table).contains_key(key),
        (list matches Some(l) ==> l@ == table_entries(*table)[key]),
{
    table.table.get(&key)
}

/// The pair of the objects at `k` and `m` has been looked at when the scan
/// stands before the pair of `i` and `j`. Pairs are taken in the order of
/// their lower position, then of their higher.
pub open spec fn looked_at(k: int, m: int, i: int, j: int) -> bool {
    let low = if k < m { k } else { m };
    let high = if k < m { m } else { k };
    low < i || (low == i && high < j)
}

/// The identifiers of the objects among the first `upto` that overlap the
/// object at `k` and whose pair with it has been looked at when the scan
/// stands before the pair of `i` and `j`.
pub open spec fn found_so_far(objects: Seq<ObjectView>, k: int, i: int, j: int, upto: int) -> Seq<Entity>
    decreases upto,
{
    if upto <= 0 {
        Seq::empty()
    } else {
        let before = found_so_far(objects, k, i, j, upto - 1);
        if upto - 1 != k && looked_at(k, upto - 1, i, j) && overlapping(objects[k], objects[upto - 1]) {
            before.push(objects[upto - 1].id)
        } else {
            before
        }
    }
}

/// A copy of `list`.
fn copied(list: &Vec<Entity>) -> (copy: Vec<Entity>)
    ensures
        copy@ == list@,
{
    let n: usize = list.len();
    let mut copy: Vec<Entity> = Vec::new();
    let mut i: usize = 0;
    while i < n
        invariant
            i <= n,
            n == list.len(),
            copy@ == list@.take(i as int),
        decreases n - i,
    {
        copy.push(list[i]);
        assert(list@.take(i as int + 1) =~= list@.take(i as int).push(list@[i as int]));
        i += 1;
    }
    assert(list@.take(n as int) =~= list@);
    copy
}

impl World {
    /// Scans all pairs of objects and records, on each object, the
    /// identifiers of those that overlap it. What was recorded before is
    /// dropped. An overlap is recorded on both objects of the pair.
    pub fn collision_detection(&mut self)
        requires
            old(self).wf(),
        ensures
            final(self).wf(),
            final(self)@ == detected(old(self)@),
            final(self).next_id() == old(self).next_id(),
            forall|a: int, b: int|
                0 <= a < old(self)@.len() && 0 <= b < old(self)@.len() && a != b && overlapping(
                    #[trigger] old(self)@[a],
                    #[trigger] old(self)@[b],
                ) ==> final(self)@[a].overlaps.contains(old(self)@[b].id),
    {
        let n: usize = self.objects.len();
        let ghost before = self@;
        proof {
            assert forall|a: int, b: int|
                0 <= a < before.len() && 0 <= b < before.len() && a != b && overlapping(
                    #[trigger] before[a],
                    #[trigger] before[b],
                ) implies detected(before)[a].overlaps.contains(before[b].id) by {
                lemma_detection_complete(before, self.next_id(), a, b);
            }
        }
        let mut colliding_entities: OverlapTable = table_new();
        let mut i: usize = 0;
        proof {
            assert forall|k: int| 0 <= k < n implies listed(
                table_entries(colliding_entities),
                (#[trigger] before[k]).id.0,
            ) == found_so_far(before, k, 0, 1, n as int) by {
                lemma_found_stops(before, k, 0, 1, 0, n as int);
            }
        }
        while i < n
            invariant
                i <= n,
                n == self.objects.len(),
                self@ == before,
                before == old(self)@,
                self.wf(),
                self.next_id == old(self).next_id,
                forall|k: int|
                    0 <= k < n ==> listed(table_entries(colliding_entities), (#[trigger] before[k]).id.0)
                        == found_so_far(before, k, i as int, i as int + 1, n as int),
            decreases n - i,
        {
            let mut j: usize = i + 1;
            while j < n
                invariant
                    i < j <= n,
                    n == self.objects.len(),
                    self@ == before,
                    self.wf(),
                    forall|k: int|
                        0 <= k < n ==> listed(table_entries(colliding_entities), (#[trigger] before[k]).id.0)
                            == found_so_far(before, k, i as int, j as int, n as int),
                decreases n - j,
            {
                assert(before[i as int] == self.objects[i as int]@);
                assert(before[j as int] == self.objects[j as int]@);
                let ghost entries = table_entries(colliding_entities);
                proof {
                    assert forall|k: int| 0 <= k < n implies #[trigger] found_so_far(
                        before,
                        k,
                        i as int,
                        j as int + 1,
                        n as int,
                    ) == found_after(before, k, i as int, j as int, n as int) by {
                        lemma_found_step(before, n as int, k, i as int, j as int);
                    }
                }
                if objects_overlap(&self.objects[i], &self.objects[j]) {
                    let a: Entity = self.objects[i].id;
                    let b: Entity = self.objects[j].id;
                    table_entry(&mut colliding_entities, a.0).push(b);
                    table_entry(&mut colliding_entities, b.0).push(a);
                    proof {
                        let after = table_entries(colliding_entities);
                        assert forall|k: int| 0 <= k < n implies listed(after, (#[trigger] before[k]).id.0)
                            == found_after(before, k, i as int, j as int, n as int) by {
                            assert(listed(entries, before[k].id.0) == found_so_far(
                                before,
                                k,
                                i as int,
                                j as int,
                                n as int,
                            ));
                            if k != i && k != j {
                                assert(before[k].id != before[i as int].id);
                                assert(before[k].id != before[j as int].id);
                            }
                        }
                    }
                }
                j += 1;
            }
            proof {
                assert forall|k: int| 0 <= k < n implies listed(
                    table_entries(colliding_entities),
                    (#[trigger] before[k]).id.0,
                ) == found_so_far(before, k, i as int + 1, i as int + 2, n as int) by {
                    lemma_found_agrees(before, k, i as int, n as int, i as int + 1, i as int + 2, n as int);
                }
            }
            i += 1;
        }
        proof {
            assert forall|t: int| 0 <= t < n implies listed(
                table_entries(colliding_entities),
                (#[trigger] before[t]).id.0,
            ) == overlaps_of(before, t, n as int) by {
                lemma_found_all(before, t, n as int, n as int);
            }
        }
        let mut k: usize = 0;
        while k < n
            invariant
                k <= n,
                n == self.objects.len(),
                n == old(self).objects.len(),
                before == old(self)@,
                self.next_id == old(self).next_id,
                forall|t: int| 0 <= t < n ==> same_but_overlaps(#[trigger] self.objects[t], old(self).objects[t]),
                forall|t: int|
                    0 <= t < n ==> listed(table_entries(colliding_entities), (#[trigger] before[t]).id.0)
                        == overlaps_of(before, t, n as int),
                forall|t: int|
                    0 <= t < k ==> (#[trigger] self.objects[t]).collider.colliding_entities@ == overlaps_of(
                        before,
                        t,
                        n as int,
                    ),
            decreases n - k,
        {
            assert(same_but_overlaps(self.objects[k as int], old(self).objects[k as int]));
            assert(before[k as int] == old(self).objects[k as int]@);
            let found: Vec<Entity> = match table_get(&colliding_entities, self.objects[k].id.0) {
                Some(collisions) => copied(collisions),
                None => Vec::new(),
            };
            self.objects[k].collider.colliding_entities = found;
            k += 1;
        }
        assert(self@ =~= detected(before)) by {
            assert forall|t: int| 0 <= t < n implies self@[t] == detected(before)[t] by {
                assert(same_but_overlaps(self.objects[t], old(self).objects[t]));
                assert(before[t] == old(self).objects[t]@);
            }
        }
        proof {
            lemma_detected_wf(before, self.next_id);
        }
    }
}

/// What one more pair adds: the list of the object at `k` once the pair of
/// `i` and `j` has been looked at.
pub open spec fn found_after(objects: Seq<ObjectView>, k: int, i: int, j: int, n: int) -> Seq<Entity> {
    let so_far = found_so_far(objects, k, i, j, n);
    if !overlapping(objects[i], objects[j]) {
        so_far
    } else if k == i {
        so_far.push(objects[j].id)
    } else if k == j {
        so_far.push(objects[i].id)
    } else {
        so_far
    }
}

/// Where no object from `from` up to `upto` adds to the list, the list stays.
pub proof fn lemma_found_stops(objects: Seq<ObjectView>, k: int, i: int, j: int, from: int, upto: int)
    requires
        0 <= from <= upto,
        forall|m: int| from <= m < upto && m != k ==> !#[trigger] looked_at(k, m, i, j),
    ensures
        found_so_far(objects, k, i, j, upto) == found_so_far(objects, k, i, j, from),
    decreases upto - from,
{
    if upto > from {
        lemma_found_stops(objects, k, i, j, from, upto - 1);
        if upto - 1 != k {
            assert(!looked_at(k, upto - 1, i, j));
        }
    }
}

/// Two stands of the scan at which the same pairs of the object at `k` with
/// the first `upto` objects have been looked at list the same among them.
pub proof fn lemma_found_agrees(
    objects: Seq<ObjectView>,
    k: int,
    i: int,
    j: int,
    i2: int,
    j2: int,
    upto: int,
)
    requires
        0 <= upto,
        forall|m: int| 0 <= m < upto && m != k ==> looked_at(k, m, i, j) == #[trigger] looked_at(k, m, i2, j2),
    ensures
        found_so_far(objects, k, i, j, upto) == found_so_far(objects, k, i2, j2, upto),
    decreases upto,
{
    if upto > 0 {
        lemma_found_agrees(objects, k, i, j, i2, j2, upto - 1);
        if upto - 1 != k {
            assert(looked_at(k, upto - 1, i, j) == looked_at(k, upto - 1, i2, j2));
        }
    }
}

/// Looking at the pair of `i` and `j` adds each of the two to the list of the
/// other if they overlap, and changes no other list.
pub proof fn lemma_found_step(objects: Seq<ObjectView>, n: int, k: int, i: int, j: int)
    requires
        0 <= i < j < n <= objects.len(),
        0 <= k < n,
    ensures
        found_so_far(objects, k, i, j + 1, n) == found_after(objects, k, i, j, n),
{
    if k == i {
        lemma_found_stops(objects, k, i, j + 1, j + 1, n);
        lemma_found_stops(objects, k, i, j, j, n);
        lemma_found_agrees(objects, k, i, j, i, j + 1, j);
        assert(looked_at(k, j, i, j + 1));
    } else if k == j {
        lemma_found_stops(objects, k, i, j + 1, i + 1, n);
        lemma_found_stops(objects, k, i, j, i, n);
        lemma_found_agrees(objects, k, i, j, i, j + 1, i);
        assert(looked_at(k, i, i, j + 1));
        lemma_overlapping_symmetric(objects[i], objects[j]);
    } else {
        lemma_found_agrees(objects, k, i, j, i, j + 1, n);
    }
}

/// Once every pair has been looked at, what was found for an object is what
/// overlaps it.
pub proof fn lemma_found_all(objects: Seq<ObjectView>, k: int, n: int, upto: int)
    requires
        0 <= upto <= n,
        0 <= k < n,
    ensures
        found_so_far(objects, k, n, n + 1, upto) == overlaps_of(objects, k, upto),
    decreases upto,
{
    if upto > 0 {
        lemma_found_all(objects, k, n, upto - 1);
        if upto - 1 != k {
            assert(looked_at(k, upto - 1, n, n + 1));
        }
    }
}

/// Detection keeps a store well-formed.
pub proof fn lemma_detected_wf(objects: Seq<ObjectView>, next_id: u64)
    requires
        store_wf(objects, next_id),
    ensures
        store_wf(detected(objects), next_id),
{
    let after = detected(objects);
    assert forall|i: int| 0 <= i < after.len() implies (#[trigger] after[i]).id == objects[i].id
        && after[i].kind == objects[i].kind by {}
    assert forall|i: int, j: int|
        0 <= i < after.len() && 0 <= j < after.len() && (#[trigger] after[i]).id == (
        #[trigger] after[j]).id implies i == j by {
        assert(objects[i].id == objects[j].id);
    }
    assert forall|i: int, j: int|
        0 <= i < after.len() && 0 <= j < after.len() && (#[trigger] after[i]).is_player() && (
        #[trigger] after[j]).is_player() implies i == j by {
        assert(objects[i].is_player() && objects[j].is_player());
    }
}

/// Overlapping is symmetric.
pub proof fn lemma_overlapping_symmetric(a: ObjectView, b: ObjectView)
    ensures
        overlapping(a, b) == overlapping(b, a),
{
    let p = a.transform.translation;
    let q = b.transform.translation;
    assert((p.x - q.x) * (p.x - q.x) == (q.x - p.x) * (q.x - p.x)) by (nonlinear_arith);
    assert((p.y - q.y) * (p.y - q.y) == (q.y - p.y) * (q.y - p.y)) by (nonlinear_arith);
}

/// The overlaps recorded for the object at `at` from the first `n` objects
/// name the object at `other` if and only if the two are distinct and their
/// discs intersect, provided identifiers are not shared.
pub proof fn lemma_overlaps_of_contains(objects: Seq<ObjectView>, at: int, n: int, other: int)
    requires
        0 <= at < objects.len(),
        0 <= other < n <= objects.len(),
        forall|i: int, j: int|
            0 <= i < objects.len() && 0 <= j < objects.len() && (#[trigger] objects[i]).id == (
            #[trigger] objects[j]).id ==> i == j,
    ensures
        overlaps_of(objects, at, n).contains(objects[other].id) <==> other != at && overlapping(
            objects[at],
            objects[other],
        ),
    decreases n,
{
    let before = overlaps_of(objects, at, n - 1);
    let last = objects[n - 1];
    let taken = n - 1 != at && overlapping(objects[at], last);
    if other < n - 1 {
        lemma_overlaps_of_contains(objects, at, n - 1, other);
        if taken {
            assert(before.push(last.id).contains(objects[other].id) <==> before.contains(
                objects[other].id,
            )) by {
                lemma_push_contains(before, last.id, objects[other].id);
            }
        }
    } else {
        lemma_overlaps_of_names(objects, at, n - 1);
        if taken {
            lemma_push_contains(before, last.id, last.id);
        } else {
            if before.contains(last.id) {
                let k = choose|k: int|
                    0 <= k < n - 1 && k != at && overlapping(objects[at], objects[k]) && (
                    #[trigger] objects[k]).id == last.id;
                assert(k == n - 1);
            }
        }
    }
}

/// Every identifier recorded for the object at `at` from the first `n`
/// objects is that of another object among them whose disc intersects its
/// own.
pub proof fn lemma_overlaps_of_names(objects: Seq<ObjectView>, at: int, n: int)
    requires
        0 <= at < objects.len(),
        0 <= n <= objects.len(),
    ensures
        forall|e: Entity| #[trigger]
            overlaps_of(objects, at, n).contains(e) ==> exists|k: int|
                0 <= k < n && k != at && overlapping(objects[at], objects[k]) && (
                #[trigger] objects[k]).id == e,
    decreases n,
{
    if n > 0 {
        lemma_overlaps_of_names(objects, at, n - 1);
        let before = overlaps_of(objects, at, n - 1);
        let last = objects[n - 1];
        assert forall|e: Entity| #[trigger] overlaps_of(objects, at, n).contains(e) implies exists|
            k: int,
        |
            0 <= k < n && k != at && overlapping(objects[at], objects[k]) && (
            #[trigger] objects[k]).id == e by {
            if n - 1 != at && overlapping(objects[at], last) {
                lemma_push_contains(before, last.id, e);
                if e == last.id {
                    assert(objects[n - 1].id == e);
                } else {
                    assert(before.contains(e));
                }
            }
            if before.contains(e) {
                let k = choose|k: int|
                    0 <= k < n - 1 && k != at && overlapping(objects[at], objects[k]) && (
                    #[trigger] objects[k]).id == e;
                assert(0 <= k < n && objects[k].id == e);
            }
        }
    }
}

/// A pushed sequence contains what it contained before, and the new element.
pub proof fn lemma_push_contains<A>(s: Seq<A>, last: A, e: A)
    ensures
        s.push(last).contains(e) <==> s.contains(e) || e == last,
{
    let t = s.push(last);
    if s.contains(e) {
        let i = choose|i: int| 0 <= i < s.len() && s[i] == e;
        assert(t[i] == e);
    }
    if e == last {
        assert(t[s.len() as int] == e);
    }
    if t.contains(e) {
        let i = choose|i: int| 0 <= i < t.len() && t[i] == e;
        if i < s.len() {
            assert(s[i] == e);
        }
    }
}

/// After a detection pass, two distinct objects whose discs intersect are
/// each named in the overlaps recorded on the other.
pub proof fn lemma_detection_complete(objects: Seq<ObjectView>, next_id: u64, a: int, b: int)
    requires
        store_wf(objects, next_id),
        0 <= a < objects.len(),
        0 <= b < objects.len(),
        a != b,
        overlapping(objects[a], objects[b]),
    ensures
        detected(objects)[a].overlaps.contains(objects[b].id),
        detected(objects)[b].overlaps.contains(objects[a].id),
{
    lemma_overlapping_symmetric(objects[a], objects[b]);
    lemma_overlaps_of_contains(objects, a, objects.len() as int, b);
    lemma_overlaps_of_contains(objects, b, objects.len() as int, a);
}

/// After a detection pass, an object's recorded overlaps name only other
/// objects of the store whose discs intersect its own.
pub proof fn lemma_detection_sound(objects: Seq<ObjectView>, a: int, e: Entity)
    requires
        0 <= a < objects.len(),
        detected(objects)[a].overlaps.contains(e),
    ensures
        exists|b: int|
            0 <= b < objects.len() && b != a && overlapping(objects[a], objects[b]) && (
            #[trigger] objects[b]).id == e,
{
    lemma_overlaps_of_names(objects, a, objects.len() as int);
}

} // verus!
