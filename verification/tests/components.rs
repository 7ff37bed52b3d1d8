//! Component-level behavior: defaults, force application, the velocity
//! mutators, the speed cap, and the magnitude getters. All quantities are
//! fixed-point micro-units: 1_000_000 stands for 1.0.

use dynamics::acceleration::Acceleration;
use dynamics::damping::Damping;
use dynamics::mass::Mass;
use dynamics::math::{SCALE, SPEED_CAP};
use dynamics::vec3::Vec3;
use dynamics::velocity::Velocity;

#[test]
fn defaults_are_identity_and_rest() {
    assert_eq!(Mass::default().value, SCALE);
    assert_eq!(Damping::default().value, 0);
    assert_eq!(Acceleration::default().value, Vec3::zero());
    assert_eq!(Velocity::default().value, Vec3::zero());
    assert_eq!(Vec3::default(), Vec3::new(0, 0, 0));
}

#[test]
fn mass_constructor_clamps_to_minimum() {
    assert_eq!(Mass::new(0).value, 1);
    assert_eq!(Mass::new(-5_000_000).value, 1);
    assert_eq!(Mass::new(42).value, 42);
    assert_eq!(Mass::new(2_000_000).value, 2_000_000);
}

#[test]
fn damping_constructor_stores_value() {
    assert_eq!(Damping::new(500_000).value, 500_000);
    assert_eq!(Damping::new(-250_000).value, -250_000);
}

#[test]
fn constructors_store_vectors_exactly() {
    let v = Vec3::new(1, -2, 3);
    assert_eq!(Velocity::new(v).value, v);
    assert_eq!(Acceleration::new(v).value, v);
}

#[test]
fn force_reads_back_as_force_over_mass() {
    let mut a = Acceleration::default();
    let m = Mass::new(2_000_000);
    a.apply_force(Vec3::new(1_000_000, 0, 0), &m);
    assert_eq!(a.value, Vec3::new(500_000, 0, 0));
}

#[test]
fn force_is_additive_across_repeated_calls() {
    let mut a = Acceleration::default();
    let m = Mass::new(2_000_000);
    a.apply_force(Vec3::new(1_000_000, 0, 0), &m);
    a.apply_force(Vec3::new(1_000_000, 0, 0), &m);
    assert_eq!(a.value, Vec3::new(1_000_000, 0, 0));
    a.apply_force(Vec3::new(0, 600_000, 0), &m);
    assert_eq!(a.value, Vec3::new(1_000_000, 300_000, 0));
}

#[test]
fn force_quotients_round_toward_zero() {
    let mut a = Acceleration::default();
    let m = Mass::new(3_000_000);
    a.apply_force(Vec3::new(1_000_000, -1_000_000, 0), &m);
    assert_eq!(a.value, Vec3::new(333_333, -333_333, 0));
}

#[test]
fn acceleration_step_integrates_velocity() {
    let mut v = Velocity::default();
    let a = Acceleration::new(Vec3::new(1_000_000, 0, 0));
    v.apply_acceleration(&a, 1_000_000);
    assert_eq!(v.value, Vec3::new(1_000_000, 0, 0));
}

#[test]
fn acceleration_step_clamps_to_speed_cap() {
    let mut v = Velocity::default();
    let a = Acceleration::new(Vec3::new(400_000_000_000_000, 0, 0));
    v.apply_acceleration(&a, 1_000_000);
    assert_eq!(v.value, Vec3::new(SPEED_CAP, 0, 0));
    assert_eq!(v.speed(), SPEED_CAP as u64);
}

#[test]
fn clamp_preserves_direction() {
    // A 3-4-5 candidate of magnitude 5e14 clamps to 3/5 and 4/5 of the cap.
    let mut v = Velocity::default();
    let a = Acceleration::new(Vec3::new(300_000_000_000_000, 400_000_000_000_000, 0));
    v.apply_acceleration(&a, 1_000_000);
    assert_eq!(v.value.x, SPEED_CAP / 5 * 3);
    assert_eq!(v.value.y, SPEED_CAP / 5 * 4);
    assert_eq!(v.value.z, 0);
    assert_eq!(v.speed(), SPEED_CAP as u64);
}

#[test]
fn clamp_keeps_negative_components_negative() {
    let mut v = Velocity::default();
    let a = Acceleration::new(Vec3::new(-400_000_000_000_000, 0, 0));
    v.apply_acceleration(&a, 1_000_000);
    assert_eq!(v.value, Vec3::new(-SPEED_CAP, 0, 0));
}

#[test]
fn clamp_rechecked_on_every_call() {
    let mut v = Velocity::default();
    let a = Acceleration::new(Vec3::new(400_000_000_000_000, 0, 0));
    v.apply_acceleration(&a, 1_000_000);
    v.apply_acceleration(&a, 1_000_000);
    // The second call starts from the cap and clamps right back to it.
    assert_eq!(v.speed(), SPEED_CAP as u64);
}

#[test]
fn damping_halves_velocity_at_half_coefficient() {
    let mut v = Velocity::new(Vec3::new(2_000_000, 0, 0));
    let d = Damping::new(500_000);
    v.apply_damping(&d, 1_000_000);
    assert_eq!(v.value, Vec3::new(1_000_000, 0, 0));
}

#[test]
fn damping_beyond_one_flips_sign() {
    // d * dt = 2.0, so the factor is 1 - 2 = -1: the documented edge case.
    let mut v = Velocity::new(Vec3::new(1_000_000, -2_000_000, 0));
    let d = Damping::new(2_000_000);
    v.apply_damping(&d, 1_000_000);
    assert_eq!(v.value, Vec3::new(-1_000_000, 2_000_000, 0));
}

#[test]
fn zero_damping_leaves_velocity_alone() {
    let mut v = Velocity::new(Vec3::new(123_456, -654_321, 42));
    v.apply_damping(&Damping::default(), 1_000_000);
    assert_eq!(v.value, Vec3::new(123_456, -654_321, 42));
}

#[test]
fn impulse_changes_velocity_by_impulse_over_mass_times_dt() {
    let mut v = Velocity::default();
    let m = Mass::new(2_000_000);
    v.apply_impulse(Vec3::new(10_000_000, 0, 0), &m, 1_000_000);
    assert_eq!(v.value, Vec3::new(5_000_000, 0, 0));
}

#[test]
fn impulse_never_triggers_the_speed_clamp() {
    let mut v = Velocity::default();
    let m = Mass::new(SCALE);
    v.apply_impulse(Vec3::new(8_000_000_000_000_000_000, 0, 0), &m, 1_000_000);
    // Far beyond the cap, and deliberately left there: only the
    // acceleration path clamps.
    assert_eq!(v.value.x, 8_000_000_000_000_000_000);
    assert!(v.speed() > SPEED_CAP as u64);
}

#[test]
fn speed_is_euclidean_length() {
    let v = Velocity::new(Vec3::new(3_000_000, 4_000_000, 0));
    assert_eq!(v.speed(), 5_000_000);
}

#[test]
fn magnitude_rounds_down() {
    let a = Acceleration::new(Vec3::new(1_000_000, 1_000_000, 1_000_000));
    // sqrt(3) to micro-unit precision, rounded down.
    assert_eq!(a.magnitude(), 1_732_050);
}

#[test]
fn magnitude_of_rest_is_zero() {
    assert_eq!(Acceleration::default().magnitude(), 0);
    assert_eq!(Velocity::default().speed(), 0);
}
