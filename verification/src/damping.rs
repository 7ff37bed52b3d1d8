//! The damping component.

use vstd::prelude::*;

verus! {

/// An entity's damping coefficient, the fractional velocity decay per unit
/// time, as a fixed-point micro-unit scalar: friction or drag.
///
/// No range is enforced. A coefficient whose product with the timestep
/// exceeds one inverts the sign of the velocity each tick — a documented
/// edge case of the scheme, deliberately left uncorrected.
#[derive(Clone, Copy, PartialEq, Eq, Structural, Debug)]
pub struct Damping {
    /// Damping coefficient in micro-units (one million stands for 1.0/s).
    pub value: i64,
}

impl Damping {
    /// A damping component with the given micro-unit coefficient.
    pub fn new(value: i64) -> (d: Damping)
        ensures
            d.value == value,
    {
        Damping { value }
    }
}

impl Default for Damping {
    /// No damping at all.
    fn default() -> (d: Damping)
        ensures
            d.value == 0,
    {
        Damping { value: 0 }
    }
}

} // verus!
