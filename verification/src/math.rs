//! Fixed-point scalar arithmetic.
//!
//! Every scalar in the crate is an `i64` number of micro-units: the value
//! [`SCALE`] (one million) stands for 1.0. Products and quotients of two
//! fixed-point scalars are computed in full width and rounded toward zero,
//! exactly as [`tdiv`] describes, so each executable operation returns the
//! one integer its contract names.

use vstd::prelude::*;

verus! {

use vstd::arithmetic::mul::{
    lemma_mul_cancels_negatives, lemma_mul_inequality, lemma_mul_unary_negation,
    lemma_mul_upper_bound,
};
use vstd::arithmetic::div_mod::{
    lemma_div_pos_is_pos, lemma_fundamental_div_mod, lemma_mod_division_less_than_divisor,
};

/// Number of micro-units in one unit: every scalar is fixed-point with this scale.
pub const SCALE: i64 = 1_000_000;

/// The maximum permitted velocity magnitude (the speed of light), in
/// micro-units per second: `299_792_458` units/s times [`SCALE`].
pub const SPEED_CAP: i64 = 299_792_458_000_000;

/// True when the mathematical integer `x` fits in an `i64`.
pub open spec fn in_i64(x: int) -> bool {
    i64::MIN <= x <= i64::MAX
}

/// Absolute value of a mathematical integer.
pub open spec fn iabs(x: int) -> int {
    if x >= 0 {
        x
    } else {
        -x
    }
}

/// Quotient of `a` by `d`, rounded toward zero: the rounding every executable
/// division in this crate performs. (The ghost `/` rounds toward negative
/// infinity for negative dividends, hence the case split.)
pub open spec fn tdiv(a: int, d: int) -> int
    recommends
        d > 0,
{
    if a >= 0 {
        a / d
    } else {
        -((-a) / d)
    }
}

/// Product of two fixed-point scalars: `a * b / SCALE`, rounded toward zero.
pub open spec fn mul_scaled(a: int, b: int) -> int {
    tdiv(a * b, SCALE as int)
}

/// Quotient of two fixed-point scalars: `a * SCALE / b`, rounded toward zero.
pub open spec fn div_scaled(a: int, b: int) -> int
    recommends
        b > 0,
{
    tdiv(a * SCALE as int, b)
}

/// Absolute value of an `i64`, widened so that `|i64::MIN|` is representable.
fn abs64(a: i64) -> (r: u128)
    ensures
        r as int == iabs(a as int),
        r <= 0x8000_0000_0000_0000u128,
{
    if a < 0 {
        (-(a as i128)) as u128
    } else {
        a as u128
    }
}

/// `a * b / d` with the product taken in full width and the quotient rounded
/// toward zero. The workhorse behind every scaled multiplication and division.
pub(crate) fn muldiv(a: i64, b: i64, d: u64) -> (r: i64)
    requires
        d > 0,
        in_i64(tdiv(a * b, d as int)),
    ensures
        r as int == tdiv(a * b, d as int),
{
    let neg: bool = (a < 0) != (b < 0);
    let aa: u128 = abs64(a);
    let bb: u128 = abs64(b);
    proof {
        lemma_mul_upper_bound(
            aa as int,
            0x8000_0000_0000_0000,
            bb as int,
            0x8000_0000_0000_0000,
        );
        // The full product is (plus or minus) the product of the absolute values.
        if a < 0 {
            if b < 0 {
                lemma_mul_cancels_negatives(a as int, b as int);
            } else {
                lemma_mul_unary_negation(a as int, b as int);
            }
        } else {
            if b < 0 {
                lemma_mul_unary_negation(b as int, a as int);
                vstd::arithmetic::mul::lemma_mul_is_commutative(a as int, b as int);
                vstd::arithmetic::mul::lemma_mul_is_commutative(-(b as int), a as int);
            }
        }
        assert(aa as int * bb as int == iabs(a as int * b as int));
    }
    let p: u128 = aa * bb;
    let q: u128 = p / (d as u128);
    if neg {
        proof {
            assert(tdiv(a * b, d as int) == -(q as int));
        }
        (-(q as i128)) as i64
    } else {
        proof {
            assert(tdiv(a * b, d as int) == q as int);
        }
        q as i64
    }
}

/// Rounding toward zero keeps the sign of the dividend and shrinks its
/// magnitude: `m * |tdiv(c * k, m)| <= |c| * k`.
pub proof fn lemma_tdiv_mul_le(c: int, k: int, m: int)
    requires
        m > 0,
        k >= 0,
    ensures
        iabs(tdiv(c * k, m)) * m <= iabs(c) * k,
        c >= 0 ==> tdiv(c * k, m) >= 0,
        c <= 0 ==> tdiv(c * k, m) <= 0,
{
    let q = tdiv(c * k, m);
    if c >= 0 {
        vstd::arithmetic::mul::lemma_mul_nonnegative(c, k);
        lemma_div_pos_is_pos(c * k, m);
        lemma_fundamental_div_mod(c * k, m);
        lemma_mod_division_less_than_divisor(c * k, m);
        assert(iabs(q) * m == m * ((c * k) / m)) by {
            vstd::arithmetic::mul::lemma_mul_is_commutative(iabs(q), m);
        }
        assert(iabs(c) * k == c * k);
        assert(iabs(q) * m <= iabs(c) * k);
    } else {
        lemma_mul_unary_negation(c, k);
        assert(c * k == -((-c) * k));
        vstd::arithmetic::mul::lemma_mul_nonnegative(-c, k);
        let u = (-c) * k;
        assert(iabs(c) * k == u);
        if u == 0 {
            vstd::arithmetic::div_mod::lemma_div_of0(m);
            assert(q == 0);
            assert(iabs(q) * m == 0) by {
                vstd::arithmetic::mul::lemma_mul_by_zero_is_zero(m);
            }
        } else {
            assert(q == -(u / m));
            lemma_div_pos_is_pos(u, m);
            lemma_fundamental_div_mod(u, m);
            lemma_mod_division_less_than_divisor(u, m);
            assert(iabs(q) * m == m * (u / m)) by {
                vstd::arithmetic::mul::lemma_mul_is_commutative(iabs(q), m);
            }
            assert(iabs(q) * m <= iabs(c) * k);
        }
    }
}

/// Rounding toward zero loses less than one multiple of the divisor:
/// `(|tdiv(c * k, m)| + 1) * m > |c| * k`.
pub proof fn lemma_tdiv_mul_gt(c: int, k: int, m: int)
    requires
        m > 0,
        k >= 0,
    ensures
        (iabs(tdiv(c * k, m)) + 1) * m > iabs(c) * k,
{
    let q = tdiv(c * k, m);
    if c >= 0 {
        vstd::arithmetic::mul::lemma_mul_nonnegative(c, k);
        lemma_div_pos_is_pos(c * k, m);
        lemma_fundamental_div_mod(c * k, m);
        lemma_mod_division_less_than_divisor(c * k, m);
        assert((iabs(q) + 1) * m == m * ((c * k) / m) + m) by {
            vstd::arithmetic::mul::lemma_mul_is_distributive_add_other_way(m, iabs(q), 1);
            vstd::arithmetic::mul::lemma_mul_is_commutative(iabs(q), m);
        }
        assert(iabs(c) * k == c * k);
    } else {
        lemma_mul_unary_negation(c, k);
        assert(c * k == -((-c) * k));
        vstd::arithmetic::mul::lemma_mul_nonnegative(-c, k);
        let u = (-c) * k;
        assert(iabs(c) * k == u);
        if u == 0 {
            vstd::arithmetic::div_mod::lemma_div_of0(m);
            assert(q == 0);
            assert((iabs(q) + 1) * m == m) by {
                vstd::arithmetic::mul::lemma_mul_basics(m);
            }
        } else {
            assert(q == -(u / m));
            lemma_div_pos_is_pos(u, m);
            lemma_fundamental_div_mod(u, m);
            lemma_mod_division_less_than_divisor(u, m);
            assert((iabs(q) + 1) * m == m * (u / m) + m) by {
                vstd::arithmetic::mul::lemma_mul_is_distributive_add_other_way(m, iabs(q), 1);
                vstd::arithmetic::mul::lemma_mul_is_commutative(iabs(q), m);
            }
            assert((iabs(q) + 1) * m > u);
        }
    }
}

/// A component no larger in magnitude than `m`, scaled by `k / m` with the
/// quotient rounded toward zero, stays within `[-k, k]`.
pub proof fn lemma_tdiv_scale_bound(c: int, k: int, m: int)
    requires
        m > 0,
        k >= 0,
        -m <= c <= m,
    ensures
        -k <= tdiv(c * k, m) <= k,
{
    let q = tdiv(c * k, m);
    lemma_tdiv_mul_le(c, k, m);
    lemma_mul_inequality(iabs(c), m, k);
    assert(iabs(q) * m <= m * k) by {
        vstd::arithmetic::mul::lemma_mul_is_commutative(m, k);
    }
    assert(iabs(q) <= k) by {
        if iabs(q) > k {
            lemma_mul_inequality(k + 1, iabs(q), m);
            assert((k + 1) * m > k * m) by (nonlinear_arith)
                requires
                    m > 0,
            ;
            assert(k * m == m * k) by {
                vstd::arithmetic::mul::lemma_mul_is_commutative(k, m);
            }
        }
    }
}

/// Squaring both sides of a product inequality between nonnegative values.
pub proof fn lemma_sq_amplify(ra: int, ca: int, m: int, k: int)
    by (nonlinear_arith)
    requires
        ra >= 0,
        ca >= 0,
        m >= 0,
        k >= 0,
        ra * m <= ca * k,
    ensures
        (ra * ra) * (m * m) <= (ca * ca) * (k * k),
{
}

/// The square of a value equals the square of its absolute value.
pub proof fn lemma_abs_sq(x: int)
    ensures
        iabs(x) * iabs(x) == x * x,
{
    if x < 0 {
        lemma_mul_cancels_negatives(x, x);
    }
}

/// A value whose square is at most `b * b` lies within `[-b, b]`.
pub proof fn lemma_sq_le_implies_abs_le(x: int, b: int)
    by (nonlinear_arith)
    requires
        b >= 0,
        x * x <= b * b,
    ensures
        -b <= x <= b,
{
}

/// True when `r` is the integer square root of `n`, rounded down.
pub open spec fn is_sqrt_floor(n: int, r: int) -> bool {
    0 <= r && r * r <= n < (r + 1) * (r + 1)
}

/// The integer square root of `n`, rounded down. At most one integer
/// satisfies [`is_sqrt_floor`], so the choice is determined;
/// [`lemma_sqrt_floor`] shows that it has the defining property.
pub open spec fn sqrt_floor(n: int) -> int
    recommends
        n >= 0,
{
    choose|r: int| is_sqrt_floor(n, r)
}

/// The integer square root of `n`, rounded up.
pub open spec fn sqrt_ceil(n: int) -> int
    recommends
        n >= 0,
{
    if sqrt_floor(n) * sqrt_floor(n) == n {
        sqrt_floor(n)
    } else {
        sqrt_floor(n) + 1
    }
}

/// Exhibits the rounded-down integer square root of `n`.
proof fn sqrt_floor_witness(n: int) -> (r: int)
    requires
        n >= 0,
    ensures
        is_sqrt_floor(n, r),
    decreases n,
{
    if n == 0 {
        assert(is_sqrt_floor(0, 0));
        0
    } else {
        let r0 = sqrt_floor_witness(n - 1);
        if (r0 + 1) * (r0 + 1) <= n {
            // n - 1 < (r0 + 1)^2 <= n forces n == (r0 + 1)^2.
            assert((r0 + 1) * (r0 + 1) < (r0 + 2) * (r0 + 2)) by (nonlinear_arith)
                requires
                    r0 >= 0,
            ;
            assert(is_sqrt_floor(n, r0 + 1));
            r0 + 1
        } else {
            assert(is_sqrt_floor(n, r0));
            r0
        }
    }
}

/// The defining property of [`sqrt_floor`]: it squares to at most `n`, and
/// the next integer squares to more.
pub proof fn lemma_sqrt_floor(n: int)
    requires
        n >= 0,
    ensures
        is_sqrt_floor(n, sqrt_floor(n)),
{
    let w = sqrt_floor_witness(n);
    assert(is_sqrt_floor(n, w));
}

/// Only one integer has the defining property of [`sqrt_floor`].
pub proof fn lemma_sqrt_floor_unique(n: int, r: int)
    requires
        n >= 0,
        is_sqrt_floor(n, r),
    ensures
        r == sqrt_floor(n),
{
    lemma_sqrt_floor(n);
    let s = sqrt_floor(n);
    assert(r < s ==> (r + 1) * (r + 1) <= s * s) by (nonlinear_arith)
        requires
            0 <= r,
            0 <= s,
    ;
    assert(s < r ==> (s + 1) * (s + 1) <= r * r) by (nonlinear_arith)
        requires
            0 <= r,
            0 <= s,
    ;
}

/// The integer square root of `n`, rounded down, by bisection.
pub fn isqrt(n: u128) -> (r: u64)
    ensures
        r as int == sqrt_floor(n as int),
        is_sqrt_floor(n as int, r as int),
{
    let mut lo: u128 = 0;
    let mut hi: u128 = 0x1_0000_0000_0000_0000;
    proof {
        assert((hi as int) * (hi as int) > n as int);
    }
    while lo + 1 < hi
        invariant
            lo < hi <= 0x1_0000_0000_0000_0000u128,
            (lo as int) * (lo as int) <= n as int,
            (n as int) < (hi as int) * (hi as int),
        decreases hi - lo,
    {
        let mid: u128 = lo + (hi - lo) / 2;
        proof {
            lemma_mul_upper_bound(
                mid as int,
                0xFFFF_FFFF_FFFF_FFFF,
                mid as int,
                0xFFFF_FFFF_FFFF_FFFF,
            );
        }
        let sq: u128 = mid * mid;
        if sq <= n {
            lo = mid;
        } else {
            hi = mid;
        }
    }
    proof {
        lemma_sqrt_floor_unique(n as int, lo as int);
    }
    lo as u64
}

/// The integer square root of `n`, rounded up, by bisection. The bound on
/// `n` keeps the rounded-up root within `u64` and covers every sum of three
/// squares of `i64` values.
pub fn isqrt_ceil(n: u128) -> (r: u64)
    requires
        n <= 0xC000_0000_0000_0000_0000_0000_0000_0000u128,
    ensures
        r as int == sqrt_ceil(n as int),
        (r as int) * (r as int) >= n as int,
{
    let f: u64 = isqrt(n);
    proof {
        assert((0xFFFF_FFFF_FFFF_FFFFint) * (0xFFFF_FFFF_FFFF_FFFFint)
            > 0xC000_0000_0000_0000_0000_0000_0000_0000int);
        assert(f < 0xFFFF_FFFF_FFFF_FFFFu64) by {
            if f as int >= 0xFFFF_FFFF_FFFF_FFFFint {
                assert((f as int) * (f as int) >= (0xFFFF_FFFF_FFFF_FFFFint)
                    * (0xFFFF_FFFF_FFFF_FFFFint)) by (nonlinear_arith)
                    requires
                        f as int >= 0xFFFF_FFFF_FFFF_FFFFint,
                ;
            }
        }
    }
    let fsq: u128 = (f as u128) * (f as u128);
    if fsq == n {
        f
    } else {
        f + 1
    }
}

} // verus!
