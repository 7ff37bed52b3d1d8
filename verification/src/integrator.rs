//! The fixed-tick integrator.
//!
//! Once per tick the host hands the integrator its particles and the tick's
//! timestep. For every particle the integrator applies acceleration (when
//! present), then damping (when present), then advances the position with
//! the updated velocity — a semi-implicit Euler scheme in which the order
//! is a contract, not an implementation detail: damping acts on the
//! already-accelerated velocity, and the position update uses the
//! already-damped velocity. A missing acceleration or damping component
//! skips its step and is never an error.
//!
//! This single combined pass, with the damping stage between acceleration
//! and movement, is the one configuration the crate provides; it is the
//! configuration of record, applied uniformly to every particle and every
//! tick, rather than split acceleration and movement passes without
//! damping.
//!
//! The discipline committed to here is a fixed timestep: the host calls
//! [`apply_dynamics`] once per fixed tick and passes that tick's `dt`, the
//! same value every tick, never a free-running frame time. Every operation
//! is exact integer arithmetic, so a run is a mathematical function of the
//! starting state and the timestep sequence ([`run_spec`]) and its results
//! are reproducible bit for bit.

use vstd::prelude::*;

verus! {

use crate::acceleration::Acceleration;
use crate::damping::Damping;
use crate::vec3::{add_mul_scaled, vadd, vmul_add_fits, vmul_scaled, Vec3, V3};
use crate::velocity::{accel_applied, damp_applied, damp_fits, Velocity};

/// One simulated particle: its position, its velocity, and the optional
/// acceleration and damping components.
#[derive(Clone, Copy, PartialEq, Eq, Structural, Debug)]
pub struct Particle {
    /// Where the particle is, in micro-units.
    pub position: Vec3,
    /// How fast it moves.
    pub velocity: Velocity,
    /// Its acceleration accumulator, if it has one.
    pub acceleration: Option<Acceleration>,
    /// Its damping coefficient, if it has one.
    pub damping: Option<Damping>,
}

/// The mathematical model of a [`Particle`].
pub ghost struct ParticleModel {
    pub position: V3,
    pub velocity: V3,
    pub acceleration: Option<V3>,
    pub damping: Option<int>,
}

impl View for Particle {
    type V = ParticleModel;

    open spec fn view(&self) -> ParticleModel {
        ParticleModel {
            position: self.position@,
            velocity: self.velocity@,
            acceleration: match self.acceleration {
                Some(a) => Some(a@),
                None => None,
            },
            damping: match self.damping {
                Some(d) => Some(d.value as int),
                None => None,
            },
        }
    }
}

/// The velocity after the acceleration stage of a tick.
pub open spec fn velocity_after_accel(p: ParticleModel, dt: int) -> V3 {
    match p.acceleration {
        Some(a) => accel_applied(p.velocity, a, dt),
        None => p.velocity,
    }
}

/// The velocity after the acceleration and damping stages of a tick.
pub open spec fn velocity_after_damping(p: ParticleModel, dt: int) -> V3 {
    match p.damping {
        Some(d) => damp_applied(velocity_after_accel(p, dt), d, dt),
        None => velocity_after_accel(p, dt),
    }
}

/// The particle after one full tick: acceleration, then damping, then the
/// position advanced by the updated velocity times the timestep.
pub open spec fn step_spec(p: ParticleModel, dt: int) -> ParticleModel {
    ParticleModel {
        position: vadd(p.position, vmul_scaled(velocity_after_damping(p, dt), dt)),
        velocity: velocity_after_damping(p, dt),
        acceleration: p.acceleration,
        damping: p.damping,
    }
}

/// True when every intermediate value of one tick of `p` fits in an `i64`:
/// the machine-limit precondition of [`step_particle`].
pub open spec fn step_fits(p: ParticleModel, dt: int) -> bool {
    &&& match p.acceleration {
        Some(a) => vmul_add_fits(p.velocity, a, dt),
        None => true,
    }
    &&& match p.damping {
        Some(d) => damp_fits(velocity_after_accel(p, dt), d, dt),
        None => true,
    }
    &&& vmul_add_fits(p.position, velocity_after_damping(p, dt), dt)
}

/// Advances one particle by one tick, exactly as [`step_spec`] states.
pub fn step_particle(p: &mut Particle, delta_time: i64)
    requires
        step_fits(old(p)@, delta_time as int),
    ensures
        final(p)@ == step_spec(old(p)@, delta_time as int),
{
    let mut v: Velocity = p.velocity;
    match p.acceleration {
        Some(acc) => v.apply_acceleration(&acc, delta_time),
        None => {},
    }
    match p.damping {
        Some(d) => v.apply_damping(&d, delta_time),
        None => {},
    }
    p.velocity = v;
    p.position = add_mul_scaled(&p.position, &v.value, delta_time);
}

/// Applies acceleration, damping, and the position update to every particle
/// in a single pass: one fixed tick of the whole system.
///
/// Each particle's result depends only on its own prior state and the
/// timestep, so per-tick work over distinct particles is independent.
pub fn apply_dynamics(particles: &mut Vec<Particle>, delta_time: i64)
    requires
        forall|j: int|
            0 <= j < old(particles)@.len() ==> step_fits(
                #[trigger] old(particles)@[j]@,
                delta_time as int,
            ),
    ensures
        final(particles)@.len() == old(particles)@.len(),
        forall|j: int|
            0 <= j < old(particles)@.len() ==> #[trigger] final(particles)@[j]@ == step_spec(
                old(particles)@[j]@,
                delta_time as int,
            ),
{
    let n: usize = particles.len();
    let mut idx: usize = 0;
    while idx < n
        invariant
            idx <= n,
            particles@.len() == n,
            n == old(particles)@.len(),
            forall|j: int|
                0 <= j < n ==> step_fits(#[trigger] old(particles)@[j]@, delta_time as int),
            forall|j: int| idx <= j < n ==> particles@[j] == old(particles)@[j],
            forall|j: int|
                0 <= j < idx ==> #[trigger] particles@[j]@ == step_spec(
                    old(particles)@[j]@,
                    delta_time as int,
                ),
        decreases n - idx,
    {
        let mut p: Particle = particles[idx];
        step_particle(&mut p, delta_time);
        particles[idx] = p;
        idx = idx + 1;
    }
}

/// The state after running a whole sequence of ticks, first to last.
pub open spec fn run_spec(p: ParticleModel, dts: Seq<int>) -> ParticleModel
    decreases dts.len(),
{
    if dts.len() == 0 {
        p
    } else {
        run_spec(step_spec(p, dts[0]), dts.drop_first())
    }
}

/// The integrator is deterministic: a tick is a mathematical function of
/// the particle's state and the timestep alone, so two runs from equal
/// states over equal timestep sequences end in equal states — and
/// [`apply_dynamics`] is proved to compute exactly this function.
pub proof fn lemma_integrator_deterministic(p: ParticleModel, q: ParticleModel, dts: Seq<int>)
    requires
        p == q,
    ensures
        run_spec(p, dts) == run_spec(q, dts),
{
}

/// A particle with a velocity but neither acceleration nor damping skips
/// both of those stages: one tick leaves the velocity untouched and only
/// advances the position by `velocity * dt`.
pub proof fn lemma_coasting_step(p: ParticleModel, dt: int)
    requires
        p.acceleration is None,
        p.damping is None,
    ensures
        step_spec(p, dt).velocity == p.velocity,
        step_spec(p, dt).position == vadd(p.position, vmul_scaled(p.velocity, dt)),
        step_spec(p, dt).acceleration is None,
        step_spec(p, dt).damping is None,
{
}

/// Over any sequence of ticks, a particle without acceleration and damping
/// never has its velocity changed.
pub proof fn lemma_coasting_run(p: ParticleModel, dts: Seq<int>)
    requires
        p.acceleration is None,
        p.damping is None,
    ensures
        run_spec(p, dts).velocity == p.velocity,
    decreases dts.len(),
{
    if dts.len() == 0 {
    } else {
        lemma_coasting_step(p, dts[0]);
        lemma_coasting_run(step_spec(p, dts[0]), dts.drop_first());
    }
}

} // verus!
