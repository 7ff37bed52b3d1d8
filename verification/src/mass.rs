//! The mass component.

use vstd::prelude::*;

verus! {

use crate::math::SCALE;

/// An entity's mass, in micro-kilograms ([`SCALE`] micro-kilograms to the
/// kilogram).
///
/// Force and impulse application divide by the mass, so a mass must be
/// positive. The policy chosen here is to clamp: [`Mass::new`] raises any
/// value below one micro-kilogram to that minimum, so a constructed mass is
/// always valid and a division by zero can never arise from one.
#[derive(Clone, Copy, PartialEq, Eq, Structural, Debug)]
pub struct Mass {
    /// Mass in micro-kilograms; positive for every constructed value.
    pub value: i64,
}

impl Mass {
    /// A mass of the given number of micro-kilograms, clamped to the minimum
    /// of one micro-kilogram when the given value is zero or negative.
    pub fn new(value: i64) -> (m: Mass)
        ensures
            m.value == if value < 1 { 1int } else { value as int },
            m.value > 0,
    {
        if value < 1 {
            Mass { value: 1 }
        } else {
            Mass { value }
        }
    }
}

impl Default for Mass {
    /// A mass of one kilogram.
    fn default() -> (m: Mass)
        ensures
            m.value == SCALE,
            m.value > 0,
    {
        Mass { value: SCALE }
    }
}

} // verus!
