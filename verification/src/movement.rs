//! Motion: velocity from acceleration, position from velocity.

use vstd::prelude::*;
use crate::collisions::Collider;
use crate::fixed::{narrow, scaled, Vec2, NANOS_PER_SECOND};
use crate::world::{ObjectView, Transform, World};

verus! {

/// Displacement per second.
#[derive(Clone, Copy, Debug, PartialEq, Eq, Structural)]
pub struct Velocity {
    pub value: Vec2,
}

impl Velocity {
    /// The velocity with the given value.
    pub fn new(value: Vec2) -> (v: Velocity)
        ensures
            v.value == value,
    {
        Velocity { value }
    }
}

/// Change of velocity per frame.
#[derive(Clone, Copy, Debug, PartialEq, Eq, Structural)]
pub struct Acceleration {
    pub value: Vec2,
}

impl Acceleration {
    /// The acceleration with the given value.
    pub fn new(value: Vec2) -> (a: Acceleration)
        ensures
            a.value == value,
    {
        Acceleration { value }
    }
}

/// The components every simulated object is spawned with.
#[derive(Debug)]
pub struct MovingObjectBundle {
    pub velocity: Velocity,
    pub acceleration: Acceleration,
    pub collider: Collider,
    pub transform: Transform,
}

/// Tenths of the speed that an idle ship loses per second.
pub const DRIFT_DECAY_TENTHS: i64 = 9;

/// Numerator of the factor `1 - 0.9 * dt` by which an idle ship's velocity is
/// multiplied in a frame of `delta_nanos`, over ten times
/// [`NANOS_PER_SECOND`].
pub open spec fn drift_numerator(delta_nanos: u64) -> int {
    10 * NANOS_PER_SECOND - DRIFT_DECAY_TENTHS * delta_nanos
}

/// The speed `v` of a ship that coasts for `delta_nanos`: `v` times
/// `1 - 0.9 * dt`. In a frame of more than ten ninths of a second the factor
/// is below zero and the ship turns round.
pub fn drifted(v: i64, delta_nanos: u64) -> (r: i64)
    ensures
        r == scaled(v as int, drift_numerator(delta_nanos), 10 * NANOS_PER_SECOND as int),
{
    let den: i128 = 10_000_000_000;
    let factor: i128 = den - 9 * (delta_nanos as i128);
    // the factor is `whole * den + part`, both with its sign
    let whole: i128 = factor / den;
    let part: i128 = factor - whole * den;
    proof {
        lemma_drift_parts(v as int, factor as int, whole as int, part as int);
    }
    let a: i128 = (v as i128) * whole;
    let b: i128 = (v as i128) * part;
    narrow(a + b / den)
}

/// A product taken in two parts: for a factor `whole * den + part` whose
/// parts have its sign, `v * factor / den` is `v * whole` and
/// `v * part / den`, both small enough to be computed.
proof fn lemma_drift_parts(v: int, factor: int, whole: int, part: int)
    requires
        i64::MIN <= v <= i64::MAX,
        -0x10_0000_0000 <= whole <= 1,
        factor == whole * 10_000_000_000 + part,
        factor >= 0 ==> whole >= 0 && 0 <= part < 10_000_000_000,
        factor <= 0 ==> whole <= 0 && -10_000_000_000 < part <= 0,
    ensures
        -0x8_0000_0000_0000_0000_0000_0000 <= v * whole <= 0x8_0000_0000_0000_0000_0000_0000,
        -0x8_0000_0000_0000_0000_0000_0000 <= v * part <= 0x8_0000_0000_0000_0000_0000_0000,
        crate::fixed::quotient(v * factor, 10_000_000_000) == v * whole + crate::fixed::quotient(
            v * part,
            10_000_000_000,
        ),
{
    let den: int = 10_000_000_000;
    let a = v * whole;
    let b = v * part;
    let m: int = 0x8000_0000_0000_0000;
    let w: int = 0x10_0000_0000;
    assert(-(m * w) <= a <= m * w) by (nonlinear_arith)
        requires
            a == v * whole,
            -m <= v <= m,
            -w <= whole <= w,
            m >= 0,
            w >= 0,
    ;
    assert(-(m * w) <= b <= m * w) by (nonlinear_arith)
        requires
            b == v * part,
            -m <= v <= m,
            -w <= part <= w,
            m >= 0,
            w >= 0,
    ;
    assert(m * w == 0x8_0000_0000_0000_0000_0000_0000) by (nonlinear_arith)
        requires
            m == 0x8000_0000_0000_0000,
            w == 0x10_0000_0000,
    ;
    assert(v * factor == a * den + b) by (nonlinear_arith)
        requires
            factor == whole * den + part,
            a == v * whole,
            b == v * part,
    ;
    // both parts have the sign of the product
    if (v >= 0 && factor >= 0) || (v <= 0 && factor <= 0) {
        assert(a >= 0 && b >= 0) by (nonlinear_arith)
            requires
                a == v * whole,
                b == v * part,
                (v >= 0 && whole >= 0 && part >= 0) || (v <= 0 && whole <= 0 && part <= 0),
        ;
        assert((a * den + b) / den == a + b / den) by {
            vstd::arithmetic::div_mod::lemma_hoist_over_denominator(b, a, den as nat);
            assert(a * den == den * a) by (nonlinear_arith);
        }
        if a * den + b == 0 {
            assert(a == 0 && b == 0) by (nonlinear_arith)
                requires
                    a * den + b == 0,
                    a >= 0,
                    b >= 0,
                    den > 0,
            ;
        }
    } else {
        assert(a <= 0 && b <= 0) by (nonlinear_arith)
            requires
                a == v * whole,
                b == v * part,
                (v >= 0 && whole <= 0 && part <= 0) || (v <= 0 && whole >= 0 && part >= 0),
        ;
        assert((-a * den + -b) / den == -a + (-b) / den) by {
            vstd::arithmetic::div_mod::lemma_hoist_over_denominator(-b, -a, den as nat);
            assert(-a * den == den * (-a)) by (nonlinear_arith);
        }
        assert(-(a * den + b) == -a * den + -b) by (nonlinear_arith);
    }
}

/// An object after its acceleration was added to its velocity.
pub open spec fn accelerated(o: ObjectView) -> ObjectView {
    ObjectView { velocity: o.velocity.sum(o.acceleration), ..o }
}

/// The velocity an object moves with in a frame: the ship's decays while it
/// coasts, every other one is kept.
pub open spec fn frame_velocity(o: ObjectView, delta_nanos: u64, coasting: bool) -> Vec2 {
    if coasting && o.is_player() {
        o.velocity.times(drift_numerator(delta_nanos), 10 * NANOS_PER_SECOND as int)
    } else {
        o.velocity
    }
}

/// An object after it moved for `delta_nanos` at its frame velocity.
pub open spec fn moved(o: ObjectView, delta_nanos: u64, coasting: bool) -> ObjectView {
    let velocity = frame_velocity(o, delta_nanos, coasting);
    ObjectView {
        velocity,
        transform: Transform {
            translation: o.transform.translation.sum(
                velocity.times(delta_nanos as int, NANOS_PER_SECOND as int),
            ),
            ..o.transform
        },
        ..o
    }
}

impl World {
    /// Adds each object's acceleration to its velocity.
    pub fn update_velocity(&mut self)
        requires
            old(self).wf(),
        ensures
            final(self).wf(),
            final(self)@ == old(self)@.map_values(|o: ObjectView| accelerated(o)),
            final(self).next_id() == old(self).next_id(),
    {
        let n: usize = self.objects.len();
        let mut i: usize = 0;
        while i < n
            invariant
                i <= n,
                n == self.objects.len(),
                n == old(self).objects.len(),
                self.next_id == old(self).next_id,
                forall|k: int|
                    0 <= k < i ==> (#[trigger] self.objects[k])@ == accelerated(old(self).objects[k]@),
                forall|k: int| i <= k < n ==> self.objects[k] == old(self).objects[k],
            decreases n - i,
        {
            let v: Vec2 = self.objects[i].velocity.value.plus(self.objects[i].acceleration.value);
            self.objects[i].velocity.value = v;
            i += 1;
        }
        assert(self@ =~= old(self)@.map_values(|o: ObjectView| accelerated(o)));
    }

    /// Moves each object by its velocity times the frame's length. While the
    /// ship coasts (no thrust either way this frame) its velocity decays first.
    pub fn update_position(&mut self, delta_nanos: u64, coasting: bool)
        requires
            old(self).wf(),
        ensures
            final(self).wf(),
            final(self)@ == old(self)@.map_values(|o: ObjectView| moved(o, delta_nanos, coasting)),
            final(self).next_id() == old(self).next_id(),
    {
        let n: usize = self.objects.len();
        let mut i: usize = 0;
        while i < n
            invariant
                i <= n,
                n == self.objects.len(),
                n == old(self).objects.len(),
                self.next_id == old(self).next_id,
                forall|k: int|
                    0 <= k < i ==> (#[trigger] self.objects[k])@ == moved(
                        old(self).objects[k]@,
                        delta_nanos,
                        coasting,
                    ),
                forall|k: int| i <= k < n ==> self.objects[k] == old(self).objects[k],
            decreases n - i,
        {
            if coasting && self.objects[i].kind.is_player() {
                let fast: Vec2 = self.objects[i].velocity.value;
                let slowed = Vec2 { x: drifted(fast.x, delta_nanos), y: drifted(fast.y, delta_nanos) };
                self.objects[i].velocity.value = slowed;
            }
            let step: Vec2 = self.objects[i].velocity.value.over_time(delta_nanos);
            let place: Vec2 = self.objects[i].transform.translation.plus(step);
            self.objects[i].transform.translation = place;
            i += 1;
        }
        assert(self@ =~= old(self)@.map_values(|o: ObjectView| moved(o, delta_nanos, coasting)));
    }
}

} // verus!
