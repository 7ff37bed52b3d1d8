//! The velocity component and its three mutators.
//!
//! Acceleration integration clamps the result to the speed cap; impulse
//! application deliberately does not (the asymmetry is part of the design
//! and is stated, not hidden); damping rescales the vector and may invert
//! it when the coefficient times the timestep exceeds one.

use vstd::prelude::*;

verus! {

use crate::acceleration::Acceleration;
use crate::damping::Damping;
use crate::mass::Mass;
use crate::math::{
    div_scaled, iabs, in_i64, is_sqrt_floor, isqrt_ceil, lemma_abs_sq,
    lemma_sq_le_implies_abs_le, lemma_sqrt_floor, lemma_tdiv_mul_le, lemma_tdiv_scale_bound,
    mul_scaled, muldiv, sqrt_ceil, sqrt_floor, tdiv, SCALE, SPEED_CAP,
};
use crate::vec3::{
    add_mul_scaled, sum_squares, vadd, vdiv_scaled, vmul_add_fits, vmul_scaled, vsum_sq, vzero,
    Vec3, V3,
};
use vstd::arithmetic::mul::lemma_mul_nonnegative;

/// An entity's velocity, in micro-units per second.
#[derive(Clone, Copy, PartialEq, Eq, Structural, Debug)]
pub struct Velocity {
    /// The velocity vector, in micro-units per second.
    pub value: Vec3,
}

impl View for Velocity {
    type V = V3;

    open spec fn view(&self) -> V3 {
        self.value@
    }
}

/// The square of the speed cap.
pub open spec fn cap_sq() -> int {
    (SPEED_CAP as int) * (SPEED_CAP as int)
}

/// The square of the speed cap, written out: lets a caller with concrete
/// values decide on which side of the clamp they fall.
pub proof fn lemma_cap_sq_value()
    ensures
        cap_sq() == 89_875_517_873_681_764_000_000_000_000int,
{
    assert((299_792_458_000_000int) * (299_792_458_000_000int)
        == 89_875_517_873_681_764_000_000_000_000int) by (nonlinear_arith);
}

/// The candidate vector `c` clamped to the speed cap: left alone when its
/// magnitude is within the cap, otherwise rescaled by `SPEED_CAP / |c|`
/// (componentwise, quotients rounded toward zero, with `|c|` rounded up),
/// which preserves the direction and brings the magnitude to the cap.
pub open spec fn clamp_speed(c: V3) -> V3 {
    if vsum_sq(c) > cap_sq() {
        let m = sqrt_ceil(vsum_sq(c));
        V3 {
            x: tdiv(c.x * SPEED_CAP, m),
            y: tdiv(c.y * SPEED_CAP, m),
            z: tdiv(c.z * SPEED_CAP, m),
        }
    } else {
        c
    }
}

/// The velocity after one acceleration step: `v + a * dt`, then the clamp.
pub open spec fn accel_applied(v: V3, a: V3, dt: int) -> V3 {
    clamp_speed(vadd(v, vmul_scaled(a, dt)))
}

/// The damping factor `1 - d * dt`, as a fixed-point scalar. Negative when
/// `d * dt` exceeds one: the velocity then flips sign.
pub open spec fn damp_factor(d: int, dt: int) -> int {
    SCALE - mul_scaled(d, dt)
}

/// The velocity after damping: each component multiplied by the damping
/// factor. Never clamped to zero.
pub open spec fn damp_applied(v: V3, d: int, dt: int) -> V3 {
    vmul_scaled(v, damp_factor(d, dt))
}

/// The velocity after an impulse: `i / m * dt` is added componentwise.
/// No speed-cap clamp on this path.
pub open spec fn impulse_applied(v: V3, i: V3, m: int, dt: int) -> V3
    recommends
        m > 0,
{
    vadd(v, vmul_scaled(vdiv_scaled(i, m), dt))
}

/// True when the damping factor and every damped component fit in an `i64`.
pub open spec fn damp_fits(v: V3, d: int, dt: int) -> bool {
    &&& in_i64(mul_scaled(d, dt))
    &&& in_i64(damp_factor(d, dt))
    &&& in_i64(mul_scaled(v.x, damp_factor(d, dt)))
    &&& in_i64(mul_scaled(v.y, damp_factor(d, dt)))
    &&& in_i64(mul_scaled(v.z, damp_factor(d, dt)))
}

/// True when every component of `i / m`, scaled by `dt` and added to `v`,
/// fits in an `i64` at each step.
pub open spec fn impulse_fits(v: V3, i: V3, m: int, dt: int) -> bool {
    &&& in_i64(div_scaled(i.x, m))
    &&& in_i64(div_scaled(i.y, m))
    &&& in_i64(div_scaled(i.z, m))
    &&& vmul_add_fits(v, vdiv_scaled(i, m), dt)
}

impl Velocity {
    /// A velocity component with the given vector.
    pub fn new(value: Vec3) -> (v: Velocity)
        ensures
            v@ == value@,
    {
        Velocity { value }
    }

    /// Applies an acceleration over the timestep and clamps the result to
    /// the speed cap, exactly as [`accel_applied`] states. The clamp is
    /// re-evaluated on every call, not once per tick.
    pub fn apply_acceleration(&mut self, acceleration: &Acceleration, delta_time: i64)
        requires
            vmul_add_fits(old(self)@, acceleration@, delta_time as int),
        ensures
            final(self)@ == accel_applied(old(self)@, acceleration@, delta_time as int),
    {
        let c: Vec3 = add_mul_scaled(&self.value, &acceleration.value, delta_time);
        let ss: u128 = sum_squares(&c);
        let cap: u128 = SPEED_CAP as u128;
        proof {
            assert((cap as int) * (cap as int) == cap_sq());
        }
        let cap2: u128 = cap * cap;
        if ss > cap2 {
            let m: u64 = isqrt_ceil(ss);
            proof {
                lemma_clamp_in_range(c@, m as int);
            }
            self.value.x = muldiv(c.x, SPEED_CAP, m);
            self.value.y = muldiv(c.y, SPEED_CAP, m);
            self.value.z = muldiv(c.z, SPEED_CAP, m);
        } else {
            self.value = c;
        }
    }

    /// Applies an impulse: adds `impulse / mass * dt` to the velocity,
    /// exactly as [`impulse_applied`] states. This path has no speed-cap
    /// clamp (see [`lemma_impulse_never_clamped`]).
    pub fn apply_impulse(&mut self, impulse: Vec3, mass: &Mass, delta_time: i64)
        requires
            mass.value > 0,
            impulse_fits(old(self)@, impulse@, mass.value as int, delta_time as int),
        ensures
            final(self)@ == impulse_applied(
                old(self)@,
                impulse@,
                mass.value as int,
                delta_time as int,
            ),
    {
        let m: u64 = mass.value as u64;
        let step = Vec3 {
            x: muldiv(impulse.x, SCALE, m),
            y: muldiv(impulse.y, SCALE, m),
            z: muldiv(impulse.z, SCALE, m),
        };
        self.value = add_mul_scaled(&self.value, &step, delta_time);
    }

    /// Applies damping: multiplies the velocity by `1 - damping * dt`,
    /// exactly as [`damp_applied`] states. Not clamped to zero; a factor
    /// below minus one flips the sign, as documented on [`Damping`].
    pub fn apply_damping(&mut self, damping: &Damping, delta_time: i64)
        requires
            damp_fits(old(self)@, damping.value as int, delta_time as int),
        ensures
            final(self)@ == damp_applied(old(self)@, damping.value as int, delta_time as int),
    {
        let f: i64 = SCALE - muldiv(damping.value, delta_time, SCALE as u64);
        self.value.x = muldiv(self.value.x, f, SCALE as u64);
        self.value.y = muldiv(self.value.y, f, SCALE as u64);
        self.value.z = muldiv(self.value.z, f, SCALE as u64);
    }

    /// The current speed: the Euclidean length of the velocity, in
    /// micro-units per second, rounded down to the nearest micro-unit.
    pub fn speed(&self) -> (r: u64)
        ensures
            r as int == sqrt_floor(vsum_sq(self@)),
            is_sqrt_floor(vsum_sq(self@), r as int),
    {
        let s: u128 = sum_squares(&self.value);
        crate::math::isqrt(s)
    }
}

impl Default for Velocity {
    /// At rest: the zero vector.
    fn default() -> (v: Velocity)
        ensures
            v@ == vzero(),
    {
        Velocity { value: Vec3 { x: 0, y: 0, z: 0 } }
    }
}

/// Each square is nonnegative, so the squared magnitude is too, and each
/// component's square is at most the whole sum.
proof fn lemma_sum_sq_parts(c: V3)
    ensures
        vsum_sq(c) >= 0,
        c.x * c.x <= vsum_sq(c),
        c.y * c.y <= vsum_sq(c),
        c.z * c.z <= vsum_sq(c),
{
    lemma_abs_sq(c.x);
    lemma_abs_sq(c.y);
    lemma_abs_sq(c.z);
    lemma_mul_nonnegative(iabs(c.x), iabs(c.x));
    lemma_mul_nonnegative(iabs(c.y), iabs(c.y));
    lemma_mul_nonnegative(iabs(c.z), iabs(c.z));
}

/// In the clamp branch the rounded-up magnitude `m` is positive, bounds
/// every component, and each rescaled component stays within the cap.
proof fn lemma_clamp_in_range(c: V3, m: int)
    requires
        vsum_sq(c) > cap_sq(),
        m == sqrt_ceil(vsum_sq(c)),
    ensures
        m > 0,
        in_i64(tdiv(c.x * SPEED_CAP, m)),
        in_i64(tdiv(c.y * SPEED_CAP, m)),
        in_i64(tdiv(c.z * SPEED_CAP, m)),
{
    lemma_sum_sq_parts(c);
    lemma_ceil_sq_ge(vsum_sq(c), m);
    lemma_mul_nonnegative(SPEED_CAP as int, SPEED_CAP as int);
    assert(m > 0) by {
        if m == 0 {
            assert(m * m == 0) by (nonlinear_arith)
                requires
                    m == 0,
            ;
        }
    }
    lemma_sq_le_implies_abs_le(c.x, m);
    lemma_sq_le_implies_abs_le(c.y, m);
    lemma_sq_le_implies_abs_le(c.z, m);
    lemma_tdiv_scale_bound(c.x, SPEED_CAP as int, m);
    lemma_tdiv_scale_bound(c.y, SPEED_CAP as int, m);
    lemma_tdiv_scale_bound(c.z, SPEED_CAP as int, m);
}

/// The rounded-up square root squares to at least its argument.
proof fn lemma_ceil_sq_ge(n: int, m: int)
    requires
        n >= 0,
        m == sqrt_ceil(n),
    ensures
        m >= 0,
        m * m >= n,
{
    lemma_sqrt_floor(n);
    let f = sqrt_floor(n);
    if f * f == n {
    } else {
        assert(m == f + 1);
        assert((f + 1) * (f + 1) > n);
    }
}

/// The heart of the speed-cap proof: if each rescaled magnitude `r_i`
/// satisfies `r_i * m <= c_i * k` and the squares of the `c_i` sum to at
/// most `m * m`, then the squares of the `r_i` sum to at most `k * k`.
proof fn lemma_clamp_sum_bound(
    rx: int,
    ry: int,
    rz: int,
    cx: int,
    cy: int,
    cz: int,
    m: int,
    k: int,
)
    requires
        m > 0,
        k >= 0,
        0 <= rx,
        0 <= ry,
        0 <= rz,
        0 <= cx,
        0 <= cy,
        0 <= cz,
        rx * m <= cx * k,
        ry * m <= cy * k,
        rz * m <= cz * k,
        cx * cx + cy * cy + cz * cz <= m * m,
    ensures
        rx * rx + ry * ry + rz * rz <= k * k,
{
    crate::math::lemma_sq_amplify(rx, cx, m, k);
    crate::math::lemma_sq_amplify(ry, cy, m, k);
    crate::math::lemma_sq_amplify(rz, cz, m, k);
    let rr = rx * rx + ry * ry + rz * rz;
    let cc = cx * cx + cy * cy + cz * cz;
    let mm = m * m;
    let kk = k * k;
    assert(rr * mm == (rx * rx) * mm + (ry * ry) * mm + (rz * rz) * mm) by {
        vstd::arithmetic::mul::lemma_mul_is_distributive_add_other_way(
            mm,
            rx * rx + ry * ry,
            rz * rz,
        );
        vstd::arithmetic::mul::lemma_mul_is_distributive_add_other_way(mm, rx * rx, ry * ry);
    }
    assert(cc * kk == (cx * cx) * kk + (cy * cy) * kk + (cz * cz) * kk) by {
        vstd::arithmetic::mul::lemma_mul_is_distributive_add_other_way(
            kk,
            cx * cx + cy * cy,
            cz * cz,
        );
        vstd::arithmetic::mul::lemma_mul_is_distributive_add_other_way(kk, cx * cx, cy * cy);
    }
    assert(rr * mm <= cc * kk);
    lemma_mul_nonnegative(k, k);
    vstd::arithmetic::mul::lemma_mul_inequality(cc, mm, kk);
    assert(mm * kk == kk * mm) by {
        vstd::arithmetic::mul::lemma_mul_is_commutative(mm, kk);
    }
    assert(rr * mm <= kk * mm);
    vstd::arithmetic::mul::lemma_mul_strictly_positive(m, m);
    vstd::arithmetic::mul::lemma_mul_inequality_converse(rr, kk, mm);
}

/// The speed cap holds: clamping never produces a vector faster than
/// [`SPEED_CAP`]; a candidate within the cap is returned unchanged; and a
/// clamped component keeps the sign of the candidate's, so the direction is
/// preserved.
pub proof fn lemma_clamp_within_cap(c: V3)
    ensures
        vsum_sq(clamp_speed(c)) <= cap_sq(),
        sqrt_floor(vsum_sq(clamp_speed(c))) <= SPEED_CAP,
        vsum_sq(c) <= cap_sq() ==> clamp_speed(c) == c,
        c.x >= 0 ==> clamp_speed(c).x >= 0,
        c.x <= 0 ==> clamp_speed(c).x <= 0,
        c.y >= 0 ==> clamp_speed(c).y >= 0,
        c.y <= 0 ==> clamp_speed(c).y <= 0,
        c.z >= 0 ==> clamp_speed(c).z >= 0,
        c.z <= 0 ==> clamp_speed(c).z <= 0,
{
    lemma_sum_sq_parts(c);
    let r = clamp_speed(c);
    if vsum_sq(c) > cap_sq() {
        let m = sqrt_ceil(vsum_sq(c));
        let k = SPEED_CAP as int;
        lemma_clamp_in_range(c, m);
        lemma_ceil_sq_ge(vsum_sq(c), m);
        lemma_tdiv_mul_le(c.x, k, m);
        lemma_tdiv_mul_le(c.y, k, m);
        lemma_tdiv_mul_le(c.z, k, m);
        lemma_abs_sq(c.x);
        lemma_abs_sq(c.y);
        lemma_abs_sq(c.z);
        lemma_abs_sq(r.x);
        lemma_abs_sq(r.y);
        lemma_abs_sq(r.z);
        lemma_clamp_sum_bound(
            iabs(r.x),
            iabs(r.y),
            iabs(r.z),
            iabs(c.x),
            iabs(c.y),
            iabs(c.z),
            m,
            k,
        );
        assert(vsum_sq(r) <= cap_sq());
    }
    lemma_sum_sq_parts(r);
    lemma_sqrt_floor(vsum_sq(r));
    let t = sqrt_floor(vsum_sq(r));
    lemma_sq_le_implies_abs_le(t, SPEED_CAP as int);
}

/// A rescaled magnitude loses at most the rounding: from
/// `(r + 1) * m > a` follows `m^2 r^2 >= a^2 - 2 m a`.
proof fn lemma_component_lower(r: int, a: int, m: int)
    by (nonlinear_arith)
    requires
        m > 0,
        r >= 0,
        a >= 0,
        (r + 1) * m > a,
    ensures
        (m * m) * (r * r) >= a * a - 2 * (m * a),
{
}

/// Three nonnegative values whose squares sum to at most `m^2` themselves
/// sum to at most `2m`.
proof fn lemma_sum_abs_le(ax: int, ay: int, az: int, m: int)
    by (nonlinear_arith)
    requires
        ax >= 0,
        ay >= 0,
        az >= 0,
        m >= 0,
        ax * ax + ay * ay + az * az <= m * m,
    ensures
        ax + ay + az <= 2 * m,
{
}

/// The clamp lands close under the cap: a candidate over the cap is brought
/// to a magnitude within four micro-units below [`SPEED_CAP`] (and never
/// above it, by [`lemma_clamp_within_cap`]) — together, the clamped speed
/// equals the cap to within rounding.
pub proof fn lemma_clamp_near_cap(c: V3)
    requires
        vsum_sq(c) > cap_sq(),
    ensures
        vsum_sq(clamp_speed(c)) >= (SPEED_CAP - 4) * (SPEED_CAP - 4),
        sqrt_floor(vsum_sq(clamp_speed(c))) >= SPEED_CAP - 4,
{
    let k = SPEED_CAP as int;
    let s = vsum_sq(c);
    let m = sqrt_ceil(s);
    let r = clamp_speed(c);
    let t = vsum_sq(r);
    lemma_sum_sq_parts(c);
    lemma_sum_sq_parts(r);
    lemma_clamp_in_range(c, m);
    lemma_ceil_sq_ge(s, m);
    // The rounded-up root undershoots its square by less than 2m - 1.
    assert(s >= m * m - 2 * m + 2) by {
        lemma_sqrt_floor(s);
        let f = sqrt_floor(s);
        if f * f == s {
            assert(m == f);
            assert(s >= m * m - 2 * m + 2) by (nonlinear_arith)
                requires
                    s == m * m,
                    m >= 1,
            ;
        } else {
            assert(m == f + 1);
            assert(s >= (m - 1) * (m - 1) + 1);
            assert(s >= m * m - 2 * m + 2) by (nonlinear_arith)
                requires
                    s >= (m - 1) * (m - 1) + 1,
            ;
        }
    }
    // The candidate is over the cap, so its rounded-up magnitude is too.
    assert(m >= k + 1) by {
        if m <= k {
            vstd::arithmetic::mul::lemma_mul_upper_bound(m, k, m, k);
        }
    }
    // Componentwise lower bounds on the rescaled squares.
    let ax = iabs(c.x) * k;
    let ay = iabs(c.y) * k;
    let az = iabs(c.z) * k;
    crate::math::lemma_tdiv_mul_gt(c.x, k, m);
    crate::math::lemma_tdiv_mul_gt(c.y, k, m);
    crate::math::lemma_tdiv_mul_gt(c.z, k, m);
    vstd::arithmetic::mul::lemma_mul_nonnegative(iabs(c.x), k);
    vstd::arithmetic::mul::lemma_mul_nonnegative(iabs(c.y), k);
    vstd::arithmetic::mul::lemma_mul_nonnegative(iabs(c.z), k);
    lemma_component_lower(iabs(r.x), ax, m);
    lemma_component_lower(iabs(r.y), ay, m);
    lemma_component_lower(iabs(r.z), az, m);
    // Rewrite the absolute squares as plain squares.
    lemma_abs_sq(c.x);
    lemma_abs_sq(c.y);
    lemma_abs_sq(c.z);
    lemma_abs_sq(r.x);
    lemma_abs_sq(r.y);
    lemma_abs_sq(r.z);
    assert(ax * ax == (c.x * c.x) * (k * k)) by (nonlinear_arith)
        requires
            ax == iabs(c.x) * k,
            iabs(c.x) * iabs(c.x) == c.x * c.x,
    ;
    assert(ay * ay == (c.y * c.y) * (k * k)) by (nonlinear_arith)
        requires
            ay == iabs(c.y) * k,
            iabs(c.y) * iabs(c.y) == c.y * c.y,
    ;
    assert(az * az == (c.z * c.z) * (k * k)) by (nonlinear_arith)
        requires
            az == iabs(c.z) * k,
            iabs(c.z) * iabs(c.z) == c.z * c.z,
    ;
    // Sum the three componentwise bounds.
    assert((m * m) * t >= s * (k * k) - 2 * (m * (ax + ay + az))) by {
        assert((m * m) * t == (m * m) * (r.x * r.x) + (m * m) * (r.y * r.y) + (m * m) * (r.z
            * r.z)) by {
            vstd::arithmetic::mul::lemma_mul_is_distributive_add(
                m * m,
                r.x * r.x + r.y * r.y,
                r.z * r.z,
            );
            vstd::arithmetic::mul::lemma_mul_is_distributive_add(m * m, r.x * r.x, r.y * r.y);
        }
        assert(s * (k * k) == (c.x * c.x) * (k * k) + (c.y * c.y) * (k * k) + (c.z * c.z) * (k
            * k)) by {
            vstd::arithmetic::mul::lemma_mul_is_distributive_add_other_way(
                k * k,
                c.x * c.x + c.y * c.y,
                c.z * c.z,
            );
            vstd::arithmetic::mul::lemma_mul_is_distributive_add_other_way(
                k * k,
                c.x * c.x,
                c.y * c.y,
            );
        }
        assert(m * (ax + ay + az) == m * ax + m * ay + m * az) by {
            vstd::arithmetic::mul::lemma_mul_is_distributive_add(m, ax + ay, az);
            vstd::arithmetic::mul::lemma_mul_is_distributive_add(m, ax, ay);
        }
    }
    // The absolute components sum to at most 2m, so the subtracted term is
    // at most 4 m^2 k.
    lemma_sum_abs_le(iabs(c.x), iabs(c.y), iabs(c.z), m);
    assert(2 * (m * (ax + ay + az)) <= 4 * ((m * m) * k)) by (nonlinear_arith)
        requires
            ax == iabs(c.x) * k,
            ay == iabs(c.y) * k,
            az == iabs(c.z) * k,
            iabs(c.x) + iabs(c.y) + iabs(c.z) <= 2 * m,
            k >= 0,
            m > 0,
            iabs(c.x) >= 0,
            iabs(c.y) >= 0,
            iabs(c.z) >= 0,
    ;
    assert((m * m) * t >= s * (k * k) - 4 * ((m * m) * k));
    // Close the algebra: with s within 2m - 2 of m^2 and m above k, the
    // right-hand side stays above m^2 (k - 4)^2.
    assert(s * (k * k) - 4 * ((m * m) * k) >= (m * m) * ((k - 4) * (k - 4)))
        by (nonlinear_arith)
        requires
            s >= m * m - 2 * m + 2,
            m >= k + 1,
            k >= 9,
    ;
    assert((m * m) * t >= (m * m) * ((k - 4) * (k - 4)));
    assert(t >= (k - 4) * (k - 4)) by {
        vstd::arithmetic::mul::lemma_mul_strictly_positive(m, m);
        assert(((k - 4) * (k - 4)) * (m * m) <= t * (m * m)) by {
            vstd::arithmetic::mul::lemma_mul_is_commutative(m * m, t);
            vstd::arithmetic::mul::lemma_mul_is_commutative(m * m, (k - 4) * (k - 4));
        }
        vstd::arithmetic::mul::lemma_mul_inequality_converse((k - 4) * (k - 4), t, m * m);
    }
    // And therefore the rounded-down speed is at least k - 4.
    lemma_sqrt_floor(t);
    let w = sqrt_floor(t);
    assert(w >= k - 4) by {
        if w < k - 4 {
            vstd::arithmetic::mul::lemma_mul_upper_bound(w + 1, k - 4, w + 1, k - 4);
        }
    }
}

/// After an acceleration step the speed never exceeds the cap: the
/// invariant the integrator's acceleration path maintains.
pub proof fn lemma_accel_within_cap(v: V3, a: V3, dt: int)
    ensures
        vsum_sq(accel_applied(v, a, dt)) <= cap_sq(),
        sqrt_floor(vsum_sq(accel_applied(v, a, dt))) <= SPEED_CAP,
{
    lemma_clamp_within_cap(vadd(v, vmul_scaled(a, dt)));
}

/// The speed-cap law on the acceleration path: whenever the candidate
/// `v + a * dt` is over the cap, the integrated velocity's magnitude equals
/// [`SPEED_CAP`] to within rounding (at most four micro-units under, never
/// over), and every component keeps the candidate's sign, so the direction
/// is the candidate's.
pub proof fn lemma_accel_clamp_exact(v: V3, a: V3, dt: int)
    requires
        vsum_sq(vadd(v, vmul_scaled(a, dt))) > cap_sq(),
    ensures
        SPEED_CAP - 4 <= sqrt_floor(vsum_sq(accel_applied(v, a, dt))),
        sqrt_floor(vsum_sq(accel_applied(v, a, dt))) <= SPEED_CAP,
        ({
            let c = vadd(v, vmul_scaled(a, dt));
            let r = accel_applied(v, a, dt);
            &&& (c.x >= 0 ==> r.x >= 0) && (c.x <= 0 ==> r.x <= 0)
            &&& (c.y >= 0 ==> r.y >= 0) && (c.y <= 0 ==> r.y <= 0)
            &&& (c.z >= 0 ==> r.z >= 0) && (c.z <= 0 ==> r.z <= 0)
        }),
{
    let c = vadd(v, vmul_scaled(a, dt));
    lemma_clamp_within_cap(c);
    lemma_clamp_near_cap(c);
}

/// The impulse path has no speed-cap clamp: the result is the plain sum
/// `v + i / m * dt` whatever its magnitude — a deliberate asymmetry with
/// the acceleration path.
pub proof fn lemma_impulse_never_clamped(v: V3, i: V3, m: int, dt: int)
    requires
        m > 0,
    ensures
        impulse_applied(v, i, m, dt) == vadd(v, vmul_scaled(vdiv_scaled(i, m), dt)),
{
}

} // verus!
