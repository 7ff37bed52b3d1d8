//! A fixed-timestep particle-dynamics core.
//!
//! Entities carry a position, a velocity, and optionally an acceleration,
//! a damping coefficient and a mass. Each fixed tick the integrator applies
//! acceleration, then damping, then advances the position with the updated
//! velocity (a semi-implicit Euler scheme); external callers inject forces
//! and impulses between ticks through [`acceleration::Acceleration::apply_force`],
//! [`velocity::Velocity::apply_impulse`] and the [`gateway`] module.
//!
//! Every physical quantity is a fixed-point scalar: an `i64` counting
//! micro-units, so that `1_000_000` stands for 1.0 unit (see [`math::SCALE`]).
//! All arithmetic is exact integer arithmetic with quotients rounded toward
//! zero, which makes every operation deterministic and lets each contract
//! state the result of a call to the last micro-unit.

pub mod acceleration;
pub mod damping;
pub mod gateway;
pub mod integrator;
pub mod mass;
pub mod math;
pub mod vec3;
pub mod velocity;
