//! The acceleration accumulator.

use vstd::prelude::*;

verus! {

use crate::mass::Mass;
use crate::math::{div_scaled, in_i64, muldiv, sqrt_floor, is_sqrt_floor, SCALE};
use crate::vec3::{sum_squares, vadd, vdiv_scaled, vsum_sq, vzero, Vec3, V3};

/// An entity's acceleration, in micro-units per second squared.
///
/// The accumulator force application adds to and the integrator consumes.
/// It has no cap: unbounded growth is intentional, since acceleration is the
/// instantaneous response to force and is bounded only indirectly through
/// the velocity cap. It is not reset by the integrator; the reset policy
/// belongs to the caller.
#[derive(Clone, Copy, PartialEq, Eq, Structural, Debug)]
pub struct Acceleration {
    /// The acceleration vector, in micro-units per second squared.
    pub value: Vec3,
}

impl View for Acceleration {
    type V = V3;

    open spec fn view(&self) -> V3 {
        self.value@
    }
}

/// The acceleration after a force is applied to a body of mass `m`:
/// `f / m` is added componentwise, with each quotient rounded toward zero.
pub open spec fn force_applied(a: V3, f: V3, m: int) -> V3
    recommends
        m > 0,
{
    vadd(a, vdiv_scaled(f, m))
}

/// True when every component of `f / m`, and its sum with the matching
/// component of `a`, fits in an `i64`.
pub open spec fn force_fits(a: V3, f: V3, m: int) -> bool {
    &&& in_i64(div_scaled(f.x, m))
    &&& in_i64(div_scaled(f.y, m))
    &&& in_i64(div_scaled(f.z, m))
    &&& in_i64(a.x + div_scaled(f.x, m))
    &&& in_i64(a.y + div_scaled(f.y, m))
    &&& in_i64(a.z + div_scaled(f.z, m))
}

impl Acceleration {
    /// An acceleration component with the given vector.
    pub fn new(value: Vec3) -> (a: Acceleration)
        ensures
            a@ == value@,
    {
        Acceleration { value }
    }

    /// Applies a force to the entity: adds `force / mass` to the
    /// accumulator, exactly as [`force_applied`] states.
    pub fn apply_force(&mut self, force: Vec3, mass: &Mass)
        requires
            mass.value > 0,
            force_fits(old(self)@, force@, mass.value as int),
        ensures
            final(self)@ == force_applied(old(self)@, force@, mass.value as int),
    {
        let m: u64 = mass.value as u64;
        self.value.x = self.value.x + muldiv(force.x, SCALE, m);
        self.value.y = self.value.y + muldiv(force.y, SCALE, m);
        self.value.z = self.value.z + muldiv(force.z, SCALE, m);
    }

    /// The Euclidean length of the accumulator, in micro-units per second
    /// squared, rounded down to the nearest micro-unit.
    pub fn magnitude(&self) -> (r: u64)
        ensures
            r as int == sqrt_floor(vsum_sq(self@)),
            is_sqrt_floor(vsum_sq(self@), r as int),
    {
        let s: u128 = sum_squares(&self.value);
        crate::math::isqrt(s)
    }
}

impl Default for Acceleration {
    /// No acceleration: the zero vector.
    fn default() -> (a: Acceleration)
        ensures
            a@ == vzero(),
    {
        Acceleration { value: Vec3 { x: 0, y: 0, z: 0 } }
    }
}

/// Force application reads as `f / m` exactly: from rest, the accumulator
/// afterwards holds precisely the componentwise quotient.
pub proof fn lemma_force_from_rest(f: V3, m: int)
    requires
        m > 0,
    ensures
        force_applied(vzero(), f, m) == vdiv_scaled(f, m),
{
}

/// Force application is additive across repeated calls: applying `f` and
/// then `g` leaves the accumulator at its old value plus both quotients.
pub proof fn lemma_force_additive(a: V3, f: V3, g: V3, m: int)
    requires
        m > 0,
    ensures
        force_applied(force_applied(a, f, m), g, m)
            == vadd(a, vadd(vdiv_scaled(f, m), vdiv_scaled(g, m))),
{
}

} // verus!
