//! Objects that leave the playing field are removed.

use vstd::prelude::*;
use crate::fixed::Vec2;
use crate::world::{lemma_filter_all, lemma_filter_members, ObjectView, Viewport, World};

verus! {

/// The distance from the middle of the window beyond which an object is
/// removed.
pub const DESPAWN_DISTANCE: i64 = 750_000;

/// The object is farther than [`DESPAWN_DISTANCE`] from the middle of the
/// window.
pub open spec fn strayed(o: ObjectView, viewport: Viewport) -> bool {
    o.transform.translation.beyond(viewport.center(), DESPAWN_DISTANCE as int)
}

/// What the store holds once the strayed objects are gone.
pub open spec fn without_strays(objects: Seq<ObjectView>, viewport: Viewport) -> Seq<ObjectView> {
    objects.filter(|o: ObjectView| !strayed(o, viewport))
}

impl World {
    /// Removes every object that is farther than [`DESPAWN_DISTANCE`] from
    /// the middle of the window. An object exactly that far away stays.
    pub fn despawn_far_entities(&mut self, viewport: Viewport)
        requires
            old(self).wf(),
        ensures
            final(self).wf(),
            final(self)@ == without_strays(old(self)@, viewport),
            final(self).next_id() == old(self).next_id(),
    {
        let center: Vec2 = viewport.center();
        let n: usize = self.objects.len();
        let mut keep: Vec<bool> = Vec::new();
        let mut i: usize = 0;
        while i < n
            invariant
                i <= n,
                n == self.objects.len(),
                keep.len() == i,
                center == viewport.center(),
                forall|k: int| 0 <= k < i ==> #[trigger] keep[k] == !strayed(self@[k], viewport),
            decreases n - i,
        {
            let far: bool = self.objects[i].transform.translation.is_beyond(center, DESPAWN_DISTANCE as u64);
            assert(self@[i as int].transform == self.objects[i as int].transform);
            keep.push(!far);
            i += 1;
        }
        self.retain(&keep, Ghost(|o: ObjectView| !strayed(o, viewport)));
    }
}

/// An object exactly [`DESPAWN_DISTANCE`] from the middle of the window has
/// not strayed; any farther one has.
pub proof fn lemma_boundary_is_inside(o: ObjectView, viewport: Viewport)
    ensures
        strayed(o, viewport) <==> o.transform.translation.distance_squared(viewport.center())
            > DESPAWN_DISTANCE * DESPAWN_DISTANCE,
{
}

/// The despawn pass removes exactly the strayed objects: an object of the
/// store is in what is left if and only if it has not strayed.
pub proof fn lemma_despawn_decides(objects: Seq<ObjectView>, viewport: Viewport, at: int)
    requires
        0 <= at < objects.len(),
    ensures
        without_strays(objects, viewport).contains(objects[at]) <==> !strayed(objects[at], viewport),
{
    let pred = |o: ObjectView| !strayed(o, viewport);
    lemma_filter_members(objects, pred);
    let kept = objects.filter(pred);
    if kept.contains(objects[at]) {
        let j = choose|j: int| 0 <= j < kept.len() && kept[j] == objects[at];
        assert(pred(kept[j]));
    }
}

/// A second despawn pass removes nothing more.
pub proof fn lemma_despawn_idempotent(objects: Seq<ObjectView>, viewport: Viewport)
    ensures
        without_strays(without_strays(objects, viewport), viewport) == without_strays(objects, viewport),
{
    let pred = |o: ObjectView| !strayed(o, viewport);
    lemma_filter_members(objects, pred);
    lemma_filter_all(objects.filter(pred), pred);
}

} // verus!
