//! Three-dimensional vectors of fixed-point scalars.
//!
//! [`Vec3`] is the executable type; its mathematical model is [`V3`], a
//! ghost vector of unbounded integers reached through `@`. The spec
//! functions here define componentwise addition and scaling exactly as the
//! executable code computes them.

use vstd::prelude::*;

verus! {

use crate::math::{div_scaled, in_i64, iabs, mul_scaled, muldiv, SCALE};
use vstd::arithmetic::mul::lemma_mul_upper_bound;

/// A 3D vector of fixed-point micro-unit scalars.
#[derive(Clone, Copy, PartialEq, Eq, Structural, Debug)]
pub struct Vec3 {
    /// Component along the x axis, in micro-units.
    pub x: i64,
    /// Component along the y axis, in micro-units.
    pub y: i64,
    /// Component along the z axis, in micro-units.
    pub z: i64,
}

/// The mathematical model of a [`Vec3`]: the same three components as
/// unbounded integers.
pub ghost struct V3 {
    pub x: int,
    pub y: int,
    pub z: int,
}

impl View for Vec3 {
    type V = V3;

    open spec fn view(&self) -> V3 {
        V3 { x: self.x as int, y: self.y as int, z: self.z as int }
    }
}

/// Componentwise sum.
pub open spec fn vadd(a: V3, b: V3) -> V3 {
    V3 { x: a.x + b.x, y: a.y + b.y, z: a.z + b.z }
}

/// Componentwise difference.
pub open spec fn vsub(a: V3, b: V3) -> V3 {
    V3 { x: a.x - b.x, y: a.y - b.y, z: a.z - b.z }
}

/// Each component multiplied by the fixed-point scalar `s`.
pub open spec fn vmul_scaled(v: V3, s: int) -> V3 {
    V3 { x: mul_scaled(v.x, s), y: mul_scaled(v.y, s), z: mul_scaled(v.z, s) }
}

/// Each component divided by the fixed-point scalar `s`.
pub open spec fn vdiv_scaled(v: V3, s: int) -> V3 {
    V3 { x: div_scaled(v.x, s), y: div_scaled(v.y, s), z: div_scaled(v.z, s) }
}

/// The sum of the squares of the components: the squared Euclidean length.
pub open spec fn vsum_sq(v: V3) -> int {
    v.x * v.x + v.y * v.y + v.z * v.z
}

/// The zero vector.
pub open spec fn vzero() -> V3 {
    V3 { x: 0, y: 0, z: 0 }
}

/// True when every component of `v`, and every component of `v` first
/// multiplied by the fixed-point scalar `s` and then added to the matching
/// component of `base`, fits in an `i64`.
pub open spec fn vmul_add_fits(base: V3, v: V3, s: int) -> bool {
    &&& in_i64(mul_scaled(v.x, s))
    &&& in_i64(mul_scaled(v.y, s))
    &&& in_i64(mul_scaled(v.z, s))
    &&& in_i64(base.x + mul_scaled(v.x, s))
    &&& in_i64(base.y + mul_scaled(v.y, s))
    &&& in_i64(base.z + mul_scaled(v.z, s))
}

impl Vec3 {
    /// A vector with the given micro-unit components.
    pub fn new(x: i64, y: i64, z: i64) -> (v: Vec3)
        ensures
            v@ == (V3 { x: x as int, y: y as int, z: z as int }),
    {
        Vec3 { x, y, z }
    }

    /// The zero vector.
    pub fn zero() -> (v: Vec3)
        ensures
            v@ == vzero(),
    {
        Vec3 { x: 0, y: 0, z: 0 }
    }
}

impl Default for Vec3 {
    /// The zero vector.
    fn default() -> (v: Vec3)
        ensures
            v@ == vzero(),
    {
        Vec3 { x: 0, y: 0, z: 0 }
    }
}

/// The sum of the squares of the components, computed in full width. The
/// result is at most three times the square of `2^63`, which is why it fits
/// comfortably in a `u128`.
pub(crate) fn sum_squares(v: &Vec3) -> (s: u128)
    ensures
        s as int == vsum_sq(v@),
        s <= 0xC000_0000_0000_0000_0000_0000_0000_0000u128,
{
    let sx: u128 = square64(v.x);
    let sy: u128 = square64(v.y);
    let sz: u128 = square64(v.z);
    sx + sy + sz
}

/// The square of an `i64`, widened so that no value overflows.
fn square64(a: i64) -> (s: u128)
    ensures
        s as int == (a as int) * (a as int),
        s <= 0x4000_0000_0000_0000_0000_0000_0000_0000u128,
{
    let aa: u128 = if a < 0 {
        (-(a as i128)) as u128
    } else {
        a as u128
    };
    proof {
        assert(aa as int == iabs(a as int));
        lemma_mul_upper_bound(
            aa as int,
            0x8000_0000_0000_0000,
            aa as int,
            0x8000_0000_0000_0000,
        );
        crate::math::lemma_abs_sq(a as int);
    }
    aa * aa
}

/// Adds `vmul_scaled(v, s)` to `base`, the shared step behind damping and
/// position integration.
pub(crate) fn add_mul_scaled(base: &Vec3, v: &Vec3, s: i64) -> (r: Vec3)
    requires
        vmul_add_fits(base@, v@, s as int),
    ensures
        r@ == vadd(base@, vmul_scaled(v@, s as int)),
{
    Vec3 {
        x: base.x + muldiv(v.x, s, SCALE as u64),
        y: base.y + muldiv(v.y, s, SCALE as u64),
        z: base.z + muldiv(v.z, s, SCALE as u64),
    }
}

} // verus!
