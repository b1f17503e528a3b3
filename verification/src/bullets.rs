//! Free bullets: projectiles that fly on a fixed diagonal and are removed
//! once they leave the window by more than a margin.

use vstd::prelude::*;
use crate::fixed::{clamp, over_time, plus, scaled, Vec2, NANOS_PER_SECOND};
use crate::world::{ObjectView, Transform, Viewport, World};

verus! {

/// Speed of a free bullet along each axis.
pub const BULLET_SPEED: i64 = 250_000;

/// How far outside the window a free bullet may be.
pub const BULLET_DESPAWN_DISTANCE: i64 = 50_000;

/// Marks a free bullet.
#[derive(Clone, Copy, Debug, PartialEq, Eq, Structural)]
pub struct Bullet {
    pub direction: Vec2,
}

/// A free bullet after a frame of `delta_nanos`: it has moved by
/// [`BULLET_SPEED`] times the frame's length along both axes. Another object
/// is not changed.
pub open spec fn flown(o: ObjectView, delta_nanos: u64) -> ObjectView {
    let step = scaled(BULLET_SPEED as int, delta_nanos as int, NANOS_PER_SECOND as int);
    if o.kind is Bullet {
        ObjectView {
            transform: Transform {
                translation: Vec2 {
                    x: clamp(o.transform.translation.x + step) as i64,
                    y: clamp(o.transform.translation.y + step) as i64,
                },
                ..o.transform
            },
            ..o
        }
    } else {
        o
    }
}

/// The object is a free bullet that has left the window by more than
/// [`BULLET_DESPAWN_DISTANCE`] on some side.
pub open spec fn escaped(o: ObjectView, viewport: Viewport) -> bool {
    let at = o.transform.translation;
    o.kind is Bullet && (at.x < -BULLET_DESPAWN_DISTANCE || at.x > viewport.width + BULLET_DESPAWN_DISTANCE
        || at.y < -BULLET_DESPAWN_DISTANCE || at.y > viewport.height + BULLET_DESPAWN_DISTANCE)
}

impl World {
    /// Moves every free bullet along the diagonal.
    pub fn update_bullets(&mut self, delta_nanos: u64)
        requires
            old(self).wf(),
        ensures
            final(self).wf(),
            final(self).next_id() == old(self).next_id(),
            final(self)@ == old(self)@.map_values(|o: ObjectView| flown(o, delta_nanos)),
    {
        let step: i64 = over_time(BULLET_SPEED, delta_nanos);
        let n: usize = self.objects.len();
        let mut i: usize = 0;
        while i < n
            invariant
                i <= n,
                n == self.objects.len(),
                n == old(self).objects.len(),
                self.next_id == old(self).next_id,
                step == scaled(BULLET_SPEED as int, delta_nanos as int, NANOS_PER_SECOND as int),
                forall|k: int|
                    0 <= k < i ==> (#[trigger] self.objects[k])@ == flown(old(self).objects[k]@, delta_nanos),
                forall|k: int| i <= k < n ==> self.objects[k] == old(self).objects[k],
            decreases n - i,
        {
            if self.objects[i].kind.is_bullet() {
                let x: i64 = plus(self.objects[i].transform.translation.x, step);
                let y: i64 = plus(self.objects[i].transform.translation.y, step);
                self.objects[i].transform.translation = Vec2 { x, y };
            }
            i += 1;
        }
        assert(self@ =~= old(self)@.map_values(|o: ObjectView| flown(o, delta_nanos)));
    }

    /// Removes every free bullet that has left the window by more than
    /// [`BULLET_DESPAWN_DISTANCE`]. A bullet exactly that far outside stays.
    pub fn despawn_bullets(&mut self, viewport: Viewport)
        requires
            old(self).wf(),
        ensures
            final(self).wf(),
            final(self).next_id() == old(self).next_id(),
            final(self)@ == old(self)@.filter(|o: ObjectView| !escaped(o, viewport)),
    {
        let x_min: i64 = 0 - BULLET_DESPAWN_DISTANCE;
        let x_max: i64 = viewport.width as i64 + BULLET_DESPAWN_DISTANCE;
        let y_min: i64 = 0 - BULLET_DESPAWN_DISTANCE;
        let y_max: i64 = viewport.height as i64 + BULLET_DESPAWN_DISTANCE;
        let n: usize = self.objects.len();
        let mut keep: Vec<bool> = Vec::new();
        let mut i: usize = 0;
        while i < n
            invariant
                i <= n,
                n == self.objects.len(),
                keep.len() == i,
                x_min == -BULLET_DESPAWN_DISTANCE,
                y_min == -BULLET_DESPAWN_DISTANCE,
                x_max == viewport.width + BULLET_DESPAWN_DISTANCE,
                y_max == viewport.height + BULLET_DESPAWN_DISTANCE,
                forall|k: int| 0 <= k < i ==> #[trigger] keep[k] == !escaped(self@[k], viewport),
            decreases n - i,
        {
            assert(self@[i as int] == self.objects[i as int]@);
            let at: Vec2 = self.objects[i].transform.translation;
            let out: bool = self.objects[i].kind.is_bullet() && (at.x < x_min || at.x > x_max || at.y < y_min
                || at.y > y_max);
            keep.push(!out);
            i += 1;
        }
        self.retain(&keep, Ghost(|o: ObjectView| !escaped(o, viewport)));
    }
}

} // verus!
