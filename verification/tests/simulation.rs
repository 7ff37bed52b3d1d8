//! Whole-system behavior: the fixed-tick integrator pass and the
//! force/impulse gateway.

use dynamics::acceleration::Acceleration;
use dynamics::damping::Damping;
use dynamics::gateway::{consume_force, consume_impulse, ForceArrow};
use dynamics::integrator::{apply_dynamics, step_particle, Particle};
use dynamics::mass::Mass;
use dynamics::vec3::Vec3;
use dynamics::velocity::Velocity;

const DT: i64 = 1_000_000;

fn coasting_particle() -> Particle {
    Particle {
        position: Vec3::zero(),
        velocity: Velocity::new(Vec3::new(1_000_000, 2_000_000, -3_000_000)),
        acceleration: None,
        damping: None,
    }
}

#[test]
fn integration_order_is_accelerate_then_damp_then_move() {
    // From rest with a = 2.0 and d = 0.5 over one 1-second tick:
    // acceleration first gives v = 2.0, damping then halves it to 1.0,
    // and the position moves by the damped velocity. Any other order
    // yields a different position.
    let mut p = Particle {
        position: Vec3::zero(),
        velocity: Velocity::default(),
        acceleration: Some(Acceleration::new(Vec3::new(2_000_000, 0, 0))),
        damping: Some(Damping::new(500_000)),
    };
    step_particle(&mut p, DT);
    assert_eq!(p.velocity.value, Vec3::new(1_000_000, 0, 0));
    assert_eq!(p.position, Vec3::new(1_000_000, 0, 0));
}

#[test]
fn missing_components_skip_their_steps() {
    let mut p = coasting_particle();
    step_particle(&mut p, DT);
    assert_eq!(p.velocity.value, Vec3::new(1_000_000, 2_000_000, -3_000_000));
    assert_eq!(p.position, Vec3::new(1_000_000, 2_000_000, -3_000_000));
    step_particle(&mut p, DT);
    step_particle(&mut p, DT);
    assert_eq!(p.velocity.value, Vec3::new(1_000_000, 2_000_000, -3_000_000));
    assert_eq!(p.position, Vec3::new(3_000_000, 6_000_000, -9_000_000));
}

#[test]
fn position_advances_by_velocity_times_dt() {
    let mut p = coasting_particle();
    // A quarter-second tick moves a quarter of the velocity.
    step_particle(&mut p, 250_000);
    assert_eq!(p.position, Vec3::new(250_000, 500_000, -750_000));
}

#[test]
fn whole_pass_steps_every_particle() {
    let mut particles = vec![
        coasting_particle(),
        Particle {
            position: Vec3::new(5_000_000, 0, 0),
            velocity: Velocity::default(),
            acceleration: Some(Acceleration::new(Vec3::new(1_000_000, 0, 0))),
            damping: None,
        },
    ];
    apply_dynamics(&mut particles, DT);
    assert_eq!(particles[0].position, Vec3::new(1_000_000, 2_000_000, -3_000_000));
    assert_eq!(particles[1].velocity.value, Vec3::new(1_000_000, 0, 0));
    assert_eq!(particles[1].position, Vec3::new(6_000_000, 0, 0));
    assert_eq!(particles[1].acceleration, Some(Acceleration::new(Vec3::new(1_000_000, 0, 0))));
}

#[test]
fn empty_system_is_a_no_op() {
    let mut particles: Vec<Particle> = vec![];
    apply_dynamics(&mut particles, DT);
    assert!(particles.is_empty());
}

#[test]
fn runs_are_bit_reproducible() {
    let build = || {
        vec![
            Particle {
                position: Vec3::new(1, 2, 3),
                velocity: Velocity::new(Vec3::new(10_000, -20_000, 30_000)),
                acceleration: Some(Acceleration::new(Vec3::new(-7_000, 13_000, 0))),
                damping: Some(Damping::new(123_456)),
            },
            coasting_particle(),
        ]
    };
    let dts: [i64; 5] = [10_000, 10_000, 20_000, 5_000, 10_000];
    let mut first = build();
    let mut second = build();
    for dt in dts {
        apply_dynamics(&mut first, dt);
    }
    for dt in dts {
        apply_dynamics(&mut second, dt);
    }
    assert_eq!(first, second);
}

#[test]
fn arrow_without_both_endpoints_resolves_to_nothing() {
    let mut a = ForceArrow::new();
    assert_eq!(a.vector(), None);
    a.start = Some(Vec3::new(1, 2, 3));
    assert_eq!(a.vector(), None);
    a.start = None;
    a.end = Some(Vec3::new(1, 2, 3));
    assert_eq!(a.vector(), None);
    assert_eq!(ForceArrow::default(), ForceArrow::new());
}

#[test]
fn arrow_resolves_to_end_minus_start() {
    let mut a = ForceArrow::new();
    a.start = Some(Vec3::new(1_000_000, 0, 500_000));
    a.end = Some(Vec3::new(3_000_000, -1_000_000, 500_000));
    assert_eq!(a.vector(), Some(Vec3::new(2_000_000, -1_000_000, 0)));
}

#[test]
fn consumed_impulse_is_applied_once_and_cleared() {
    let mut arrow = ForceArrow::new();
    arrow.start = Some(Vec3::zero());
    arrow.end = Some(Vec3::new(1_000_000, 0, 0));
    let mut v = Velocity::default();
    let m = Mass::default();
    consume_impulse(&mut arrow, &mut v, &m, DT);
    assert_eq!(v.value, Vec3::new(1_000_000, 0, 0));
    assert_eq!(arrow.start, None);
    assert_eq!(arrow.end, None);
    // A second consume finds nothing to apply.
    consume_impulse(&mut arrow, &mut v, &m, DT);
    assert_eq!(v.value, Vec3::new(1_000_000, 0, 0));
}

#[test]
fn unresolved_impulse_is_skipped_without_reset() {
    let mut arrow = ForceArrow::new();
    arrow.end = Some(Vec3::new(1_000_000, 0, 0));
    let mut v = Velocity::new(Vec3::new(42, 0, 0));
    consume_impulse(&mut arrow, &mut v, &Mass::default(), DT);
    assert_eq!(v.value, Vec3::new(42, 0, 0));
    assert_eq!(arrow.end, Some(Vec3::new(1_000_000, 0, 0)));
}

#[test]
fn consumed_force_feeds_the_accumulator() {
    let mut arrow = ForceArrow::new();
    arrow.start = Some(Vec3::zero());
    arrow.end = Some(Vec3::new(4_000_000, 0, 0));
    let mut a = Acceleration::default();
    consume_force(&mut arrow, &mut a, &Mass::new(2_000_000));
    assert_eq!(a.value, Vec3::new(2_000_000, 0, 0));
    assert_eq!(arrow.start, None);
    assert_eq!(arrow.end, None);
}
