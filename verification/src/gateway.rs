//! The force/impulse gateway: the boundary through which external input
//! perturbs an entity's dynamics between ticks.
//!
//! A drag gesture is held as a [`ForceArrow`]: an optional start and an
//! optional end position, written by the input path. Resolving it yields
//! the vector from start to end; a gesture missing either point resolves
//! to nothing, and applying it is then skipped — no mutation and no error.
//! The arrow is a single-owner transient value: the consuming functions
//! here apply it and clear it in the same call, so a gesture is never
//! applied twice.

use vstd::prelude::*;

verus! {

use crate::acceleration::{force_fits, force_applied, Acceleration};
use crate::mass::Mass;
use crate::math::in_i64;
use crate::vec3::{vsub, Vec3, V3};
use crate::velocity::{impulse_applied, impulse_fits, Velocity};

/// A drag gesture in flight: where it started and where it currently ends.
#[derive(Clone, Copy, PartialEq, Eq, Structural, Debug)]
pub struct ForceArrow {
    /// The start position of the gesture, once known.
    pub start: Option<Vec3>,
    /// The end position of the gesture, once known.
    pub end: Option<Vec3>,
}

/// The vector a gesture resolves to: end minus start when both are known,
/// nothing otherwise.
pub open spec fn resolved(start: Option<Vec3>, end: Option<Vec3>) -> Option<V3> {
    match (start, end) {
        (Some(s), Some(e)) => Some(vsub(e@, s@)),
        _ => None,
    }
}

/// True when the componentwise difference of a resolvable gesture fits in
/// an `i64`.
pub open spec fn arrow_fits(start: Option<Vec3>, end: Option<Vec3>) -> bool {
    match (start, end) {
        (Some(s), Some(e)) => {
            &&& in_i64(e@.x - s@.x)
            &&& in_i64(e@.y - s@.y)
            &&& in_i64(e@.z - s@.z)
        },
        _ => true,
    }
}

impl ForceArrow {
    /// An arrow with neither a start nor an end: nothing to apply.
    pub fn new() -> (a: ForceArrow)
        ensures
            a.start is None,
            a.end is None,
    {
        ForceArrow { start: None, end: None }
    }

    /// The vector of the gesture, exactly as [`resolved`] states: `None`
    /// while either endpoint is missing.
    pub fn vector(&self) -> (r: Option<Vec3>)
        requires
            arrow_fits(self.start, self.end),
        ensures
            match r {
                Some(v) => resolved(self.start, self.end) == Some(v@),
                None => resolved(self.start, self.end) is None,
            },
    {
        match (self.start, self.end) {
            (Some(s), Some(e)) => Some(Vec3 { x: e.x - s.x, y: e.y - s.y, z: e.z - s.z }),
            _ => None,
        }
    }

    /// Clears both endpoints, so the gesture cannot be applied again.
    pub fn reset(&mut self)
        ensures
            final(self).start is None,
            final(self).end is None,
    {
        self.start = None;
        self.end = None;
    }
}

impl Default for ForceArrow {
    /// An arrow with neither a start nor an end.
    fn default() -> (a: ForceArrow)
        ensures
            a.start is None,
            a.end is None,
    {
        ForceArrow { start: None, end: None }
    }
}

/// Resolves the gesture and applies it to an acceleration as a force,
/// clearing the arrow in the same call. An unresolvable gesture mutates
/// nothing: the call is a no-op, not an error.
pub fn consume_force(
    arrow: &mut ForceArrow,
    acceleration: &mut Acceleration,
    mass: &Mass,
)
    requires
        mass.value > 0,
        arrow_fits(old(arrow).start, old(arrow).end),
        match resolved(old(arrow).start, old(arrow).end) {
            Some(v) => force_fits(old(acceleration)@, v, mass.value as int),
            None => true,
        },
    ensures
        match resolved(old(arrow).start, old(arrow).end) {
            Some(v) => {
                &&& final(acceleration)@ == force_applied(
                    old(acceleration)@,
                    v,
                    mass.value as int,
                )
                &&& final(arrow).start is None
                &&& final(arrow).end is None
            },
            None => {
                &&& *final(acceleration) == *old(acceleration)
                &&& *final(arrow) == *old(arrow)
            },
        },
{
    let v: Option<Vec3> = arrow.vector();
    match v {
        Some(force) => {
            acceleration.apply_force(force, mass);
            arrow.reset();
        },
        None => {},
    }
}

/// Resolves the gesture and applies it to a velocity as an impulse over the
/// tick's timestep, clearing the arrow in the same call. An unresolvable
/// gesture mutates nothing: the call is a no-op, not an error.
pub fn consume_impulse(
    arrow: &mut ForceArrow,
    velocity: &mut Velocity,
    mass: &Mass,
    delta_time: i64,
)
    requires
        mass.value > 0,
        arrow_fits(old(arrow).start, old(arrow).end),
        match resolved(old(arrow).start, old(arrow).end) {
            Some(v) => impulse_fits(old(velocity)@, v, mass.value as int, delta_time as int),
            None => true,
        },
    ensures
        match resolved(old(arrow).start, old(arrow).end) {
            Some(v) => {
                &&& final(velocity)@ == impulse_applied(
                    old(velocity)@,
                    v,
                    mass.value as int,
                    delta_time as int,
                )
                &&& final(arrow).start is None
                &&& final(arrow).end is None
            },
            None => {
                &&& *final(velocity) == *old(velocity)
                &&& *final(arrow) == *old(arrow)
            },
        },
{
    let v: Option<Vec3> = arrow.vector();
    match v {
        Some(impulse) => {
            velocity.apply_impulse(impulse, mass, delta_time);
            arrow.reset();
        },
        None => {},
    }
}

} // verus!
