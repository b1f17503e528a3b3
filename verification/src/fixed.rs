//! Fixed-point scalars and planar vectors.
//!
//! A scalar is an `i64` that counts thousandths: of a pixel for lengths, of a
//! pixel per second for speeds, of a radian for angles. Every operation
//! saturates at the ends of `i64` instead of wrapping, and every quotient is
//! rounded toward zero.

use vstd::prelude::*;

verus! {

/// The scalar that stands for one pixel, one pixel per second or one radian.
pub const UNIT: i64 = 1000;

/// Nanoseconds in a second.
pub const NANOS_PER_SECOND: i64 = 1_000_000_000;

/// `x` brought into the range of `i64`.
pub open spec fn clamp(x: int) -> int {
    if x < i64::MIN {
        i64::MIN as int
    } else if x > i64::MAX {
        i64::MAX as int
    } else {
        x
    }
}

/// `a / b` rounded toward zero, for a positive `b`.
pub open spec fn quotient(a: int, b: int) -> int
    recommends
        b > 0,
{
    if a >= 0 {
        a / b
    } else {
        -((-a) / b)
    }
}

/// `v * num / den`, rounded toward zero and saturated.
pub open spec fn scaled(v: int, num: int, den: int) -> int
    recommends
        den > 0,
{
    clamp(quotient(v * num, den))
}

/// The saturated value of a wide integer.
pub fn narrow(x: i128) -> (r: i64)
    ensures
        r == clamp(x as int),
{
    if x < i64::MIN as i128 {
        i64::MIN
    } else if x > i64::MAX as i128 {
        i64::MAX
    } else {
        x as i64
    }
}

/// Saturating sum.
pub fn plus(a: i64, b: i64) -> (r: i64)
    ensures
        r == clamp(a + b),
{
    narrow(a as i128 + b as i128)
}

/// Saturating negation.
pub fn negated(a: i64) -> (r: i64)
    ensures
        r == clamp(-a),
{
    narrow(-(a as i128))
}

/// `v` multiplied by the fraction `num / den`.
pub fn scale(v: i64, num: i64, den: i64) -> (r: i64)
    requires
        den > 0,
    ensures
        r == scaled(v as int, num as int, den as int),
{
    proof {
        lemma_product_fits(v as int, num as int);
    }
    let product: i128 = (v as i128) * (num as i128);
    narrow(product / (den as i128))
}

/// What a rate per second `v` comes to in `delta_nanos`.
pub fn over_time(v: i64, delta_nanos: u64) -> (r: i64)
    ensures
        r == scaled(v as int, delta_nanos as int, NANOS_PER_SECOND as int),
{
    proof {
        let m: int = 0x8000_0000_0000_0000;
        let t: int = 0xFFFF_FFFF_FFFF_FFFF;
        assert(-(m * t) <= v * delta_nanos <= m * t) by (nonlinear_arith)
            requires
                -m <= v <= m,
                0 <= delta_nanos <= t,
                m >= 0,
        ;
        assert(m * t == 0x7FFF_FFFF_FFFF_FFFF_8000_0000_0000_0000) by (nonlinear_arith)
            requires
                m == 0x8000_0000_0000_0000,
                t == 0xFFFF_FFFF_FFFF_FFFF,
        ;
    }
    let product: i128 = (v as i128) * (delta_nanos as i128);
    narrow(product / (NANOS_PER_SECOND as i128))
}

/// The product of two `i64` values fits in an `i128`.
proof fn lemma_product_fits(a: int, b: int)
    requires
        i64::MIN <= a <= i64::MAX,
        i64::MIN <= b <= i64::MAX,
    ensures
        i128::MIN < a * b <= i128::MAX,
{
    let m: int = 0x8000_0000_0000_0000;
    assert(-m <= a <= m && -m <= b <= m);
    assert(-(m * m) <= a * b <= m * m) by (nonlinear_arith)
        requires
            -m <= a <= m,
            -m <= b <= m,
            m >= 0,
    ;
    assert(m * m == 0x4000_0000_0000_0000_0000_0000_0000_0000) by (nonlinear_arith)
        requires
            m == 0x8000_0000_0000_0000,
    ;
}

/// The distance between two scalars.
pub fn span(a: i64, b: i64) -> (d: u64)
    ensures
        d == if a >= b { a - b } else { b - a },
{
    if a >= b {
        (a as i128 - b as i128) as u64
    } else {
        (b as i128 - a as i128) as u64
    }
}

/// A point or a displacement in the plane.
#[derive(Clone, Copy, Debug, PartialEq, Eq, Structural)]
pub struct Vec2 {
    pub x: i64,
    pub y: i64,
}

impl Vec2 {
    /// The vector with both components zero.
    pub open spec fn zero() -> Vec2 {
        Vec2 { x: 0, y: 0 }
    }

    /// Component-wise saturating sum.
    pub open spec fn sum(self, other: Vec2) -> Vec2 {
        Vec2 { x: clamp(self.x + other.x) as i64, y: clamp(self.y + other.y) as i64 }
    }

    /// Both components multiplied by `num / den`.
    pub open spec fn times(self, num: int, den: int) -> Vec2
        recommends
            den > 0,
    {
        Vec2 { x: scaled(self.x as int, num, den) as i64, y: scaled(self.y as int, num, den) as i64 }
    }

    /// The square of the distance to `other`.
    pub open spec fn distance_squared(self, other: Vec2) -> int {
        (self.x - other.x) * (self.x - other.x) + (self.y - other.y) * (self.y - other.y)
    }

    /// The distance to `other` is less than `reach`.
    pub open spec fn within(self, other: Vec2, reach: int) -> bool {
        reach > 0 && self.distance_squared(other) < reach * reach
    }

    /// The distance to `other` is greater than `reach`.
    pub open spec fn beyond(self, other: Vec2, reach: int) -> bool {
        reach < 0 || self.distance_squared(other) > reach * reach
    }

    /// The vector with the given components.
    pub fn new(x: i64, y: i64) -> (v: Vec2)
        ensures
            v == (Vec2 { x, y }),
    {
        Vec2 { x, y }
    }

    /// The vector with both components zero.
    pub fn origin() -> (v: Vec2)
        ensures
            v == Vec2::zero(),
    {
        Vec2 { x: 0, y: 0 }
    }

    /// Component-wise saturating sum.
    pub fn plus(self, other: Vec2) -> (v: Vec2)
        ensures
            v == self.sum(other),
    {
        Vec2 { x: plus(self.x, other.x), y: plus(self.y, other.y) }
    }

    /// Both components multiplied by `num / den`.
    pub fn scale(self, num: i64, den: i64) -> (v: Vec2)
        requires
            den > 0,
        ensures
            v == self.times(num as int, den as int),
    {
        Vec2 { x: scale(self.x, num, den), y: scale(self.y, num, den) }
    }

    /// What a rate per second comes to in `delta_nanos`, on both axes.
    pub fn over_time(self, delta_nanos: u64) -> (v: Vec2)
        ensures
            v == self.times(delta_nanos as int, NANOS_PER_SECOND as int),
    {
        Vec2 { x: over_time(self.x, delta_nanos), y: over_time(self.y, delta_nanos) }
    }

    /// Compares the distance to `other` with `reach`: `Less`, `Equal` or
    /// `Greater` as the distance is below, at or above it.
    pub fn compare_distance(self, other: Vec2, reach: u64) -> (c: Gap)
        ensures
            c == Gap::Less <==> self.distance_squared(other) < reach * reach,
            c == Gap::Equal <==> self.distance_squared(other) == reach * reach,
            c == Gap::Greater <==> self.distance_squared(other) > reach * reach,
    {
        let dx: u64 = span(self.x, other.x);
        let dy: u64 = span(self.y, other.y);
        proof {
            lemma_square_fits(dx as int);
            lemma_square_fits(dy as int);
            lemma_square_fits(reach as int);
            assert(dx * dx == (self.x - other.x) * (self.x - other.x)) by (nonlinear_arith)
                requires
                    dx == self.x - other.x || dx == other.x - self.x,
            ;
            assert(dy * dy == (self.y - other.y) * (self.y - other.y)) by (nonlinear_arith)
                requires
                    dy == self.y - other.y || dy == other.y - self.y,
            ;
        }
        let dx2: u128 = (dx as u128) * (dx as u128);
        let dy2: u128 = (dy as u128) * (dy as u128);
        let r2: u128 = (reach as u128) * (reach as u128);
        if dx2 > r2 {
            Gap::Greater
        } else {
            let rest: u128 = r2 - dx2;
            if dy2 > rest {
                Gap::Greater
            } else if dy2 == rest {
                Gap::Equal
            } else {
                Gap::Less
            }
        }
    }

    /// Whether the distance to `other` is less than `reach`.
    pub fn is_within(self, other: Vec2, reach: u64) -> (b: bool)
        ensures
            b == self.within(other, reach as int),
    {
        proof {
            assert(reach == 0 ==> reach * reach == 0);
            assert(self.distance_squared(other) >= 0) by (nonlinear_arith)
                requires
                    self.distance_squared(other) == (self.x - other.x) * (self.x - other.x) + (
                    self.y - other.y) * (self.y - other.y),
            ;
        }
        self.compare_distance(other, reach) == Gap::Less
    }

    /// Whether the distance to `other` is greater than `reach`.
    pub fn is_beyond(self, other: Vec2, reach: u64) -> (b: bool)
        ensures
            b == self.beyond(other, reach as int),
    {
        self.compare_distance(other, reach) == Gap::Greater
    }
}

/// How a distance stands to a length it was compared with.
#[derive(Clone, Copy, Debug, PartialEq, Eq, Structural)]
pub enum Gap {
    Less,
    Equal,
    Greater,
}

/// The square of a `u64` fits in a `u128`.
proof fn lemma_square_fits(a: int)
    requires
        0 <= a <= u64::MAX,
    ensures
        0 <= a * a <= 0xFFFF_FFFF_FFFF_FFFE_0000_0000_0000_0001,
{
    let m: int = 0xFFFF_FFFF_FFFF_FFFF;
    assert(0 <= a * a <= m * m) by (nonlinear_arith)
        requires
            0 <= a <= m,
    ;
    assert(m * m == 0xFFFF_FFFF_FFFF_FFFE_0000_0000_0000_0001) by (nonlinear_arith)
        requires
            m == 0xFFFF_FFFF_FFFF_FFFF,
    ;
}

} // verus!
