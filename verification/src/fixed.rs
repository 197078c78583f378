//! Fixed-point scalars.
//!
//! Every real quantity of this crate (a coordinate, a ratio, a colour channel,
//! a hue in degrees) is an `i64` that counts millionths: the integer `v` stands
//! for the number `v / ONE`. Results are rounded to the nearest millionth, a
//! tie going away from zero, and results beyond the range of `i64` stop at its
//! ends.

use vstd::prelude::*;
use vstd::arithmetic::div_mod::{
    lemma_div_is_ordered, lemma_fundamental_div_mod, lemma_fundamental_div_mod_converse,
    lemma_mod_bound,
};
use vstd::arithmetic::power::pow;

verus! {

/// The scalar that stands for the number one.
pub const ONE: i64 = 1_000_000;

/// The number of decimal places that a scalar holds.
pub const PLACES: u32 = 6;

/// `x`, brought into the range of `i64`.
pub open spec fn saturate(x: int) -> int {
    if x < i64::MIN as int {
        i64::MIN as int
    } else if x > i64::MAX as int {
        i64::MAX as int
    } else {
        x
    }
}

/// `x`, brought into the range from zero to one.
pub open spec fn clamp_unit(x: int) -> int {
    if x < 0 {
        0
    } else if x > ONE as int {
        ONE as int
    } else {
        x
    }
}

/// The integer nearest to `n / d`, for a positive `d`. Of two integers that
/// are equally near, it is the one farther from zero.
pub open spec fn round_div(n: int, d: int) -> int
    recommends
        d > 0,
{
    if n >= 0 {
        (2 * n + d) / (2 * d)
    } else {
        -((2 * (-n) + d) / (2 * d))
    }
}

/// The product of two scalars, as a scalar.
pub open spec fn product(a: int, b: int) -> int {
    saturate(round_div(a * b, ONE as int))
}

/// The distance between two neighbouring numbers of `p` decimal places,
/// counted in millionths. Beyond six places it is one millionth.
pub open spec fn granule(p: nat) -> int {
    if p >= PLACES as nat {
        1
    } else {
        pow(10, (PLACES as nat - p) as nat)
    }
}

/// `x` rounded to `p` decimal places.
pub open spec fn round_to_spec(x: int, p: nat) -> int {
    round_div(x, granule(p)) * granule(p)
}

/// Rounding to the nearest integer keeps the order of the numerators.
pub proof fn lemma_round_div_monotonic(n1: int, n2: int, d: int)
    requires
        n1 <= n2,
        d > 0,
    ensures
        round_div(n1, d) <= round_div(n2, d),
{
    if n1 >= 0 {
        lemma_div_is_ordered(2 * n1 + d, 2 * n2 + d, 2 * d);
    } else if n2 < 0 {
        lemma_div_is_ordered(2 * (-n2) + d, 2 * (-n1) + d, 2 * d);
    } else {
        lemma_div_is_ordered(0, 2 * (-n1) + d, 2 * d);
        lemma_div_is_ordered(0, 2 * n2 + d, 2 * d);
    }
}

/// A multiple of the divisor is divided without rounding.
pub proof fn lemma_round_div_multiple(k: int, d: int)
    requires
        d > 0,
    ensures
        round_div(k * d, d) == k,
{
    if k >= 0 {
        assert(k * d >= 0) by (nonlinear_arith)
            requires
                k >= 0,
                d > 0,
        ;
        assert(2 * (k * d) + d == k * (2 * d) + d) by (nonlinear_arith);
        lemma_fundamental_div_mod_converse(2 * (k * d) + d, 2 * d, k, d);
    } else {
        assert(k * d < 0) by (nonlinear_arith)
            requires
                k < 0,
                d > 0,
        ;
        assert(2 * (-(k * d)) + d == (-k) * (2 * d) + d) by (nonlinear_arith);
        lemma_fundamental_div_mod_converse(2 * (-(k * d)) + d, 2 * d, -k, d);
    }
}

/// A quotient of a numerator that is not negative lies between zero and the
/// numerator.
pub proof fn lemma_round_div_bounds(n: int, d: int)
    requires
        n >= 0,
        d > 0,
    ensures
        0 <= round_div(n, d) <= n,
{
    let q = (2 * n + d) / (2 * d);
    let r = (2 * n + d) % (2 * d);
    lemma_fundamental_div_mod(2 * n + d, 2 * d);
    lemma_mod_bound(2 * n + d, 2 * d);
    lemma_div_is_ordered(0, 2 * n + d, 2 * d);
    if q > n {
        assert((2 * d) * q >= (2 * d) * (n + 1)) by (nonlinear_arith)
            requires
                q >= n + 1,
                d > 0,
        ;
        assert((2 * d) * (n + 1) >= 2 * n + 2 * d) by (nonlinear_arith)
            requires
                n >= 0,
                d >= 1,
        ;
    }
}

/// The integer nearest to `n / d`, computed on magnitudes.
fn nearest_u128(n: u128, d: u128) -> (q: u128)
    requires
        d > 0,
    ensures
        q == round_div(n as int, d as int),
        q <= n,
{
    let whole: u128 = n / d;
    let rest: u128 = n % d;
    proof {
        lemma_fundamental_div_mod(n as int, d as int);
        lemma_round_div_bounds(n as int, d as int);
        if rest >= d - rest {
            assert(2 * n + d == (whole + 1) * (2 * d) + (2 * rest - d)) by (nonlinear_arith)
                requires
                    n == d * whole + rest,
            ;
            lemma_fundamental_div_mod_converse(
                2 * n + d,
                2 * d,
                whole + 1,
                2 * rest - d,
            );
        } else {
            assert(2 * n + d == whole * (2 * d) + (2 * rest + d)) by (nonlinear_arith)
                requires
                    n == d * whole + rest,
            ;
            lemma_fundamental_div_mod_converse(2 * n + d, 2 * d, whole as int, 2 * rest + d);
        }
    }
    if rest >= d - rest {
        whole + 1
    } else {
        whole
    }
}

/// The integer nearest to `n / d`.
pub fn round_div_i128(n: i128, d: i128) -> (q: i128)
    requires
        d > 0,
        n > i128::MIN,
    ensures
        q == round_div(n as int, d as int),
{
    if n >= 0 {
        nearest_u128(n as u128, d as u128) as i128
    } else {
        let m: i128 = -n;
        -(nearest_u128(m as u128, d as u128) as i128)
    }
}

/// `x`, brought into the range of `i64`.
pub fn saturate_i128(x: i128) -> (r: i64)
    ensures
        r == saturate(x as int),
{
    if x < i64::MIN as i128 {
        i64::MIN
    } else if x > i64::MAX as i128 {
        i64::MAX
    } else {
        x as i64
    }
}

/// The distance between two neighbouring numbers of `p` decimal places.
fn granule_of(p: u32) -> (g: i64)
    ensures
        g == granule(p as nat),
        1 <= g <= ONE,
{
    proof {
        reveal_with_fuel(pow, 7);
    }
    if p == 0 {
        1_000_000
    } else if p == 1 {
        100_000
    } else if p == 2 {
        10_000
    } else if p == 3 {
        1_000
    } else if p == 4 {
        100
    } else if p == 5 {
        10
    } else {
        1
    }
}

/// `x` rounded to `p` decimal places, for the sum of two scalars.
pub(crate) fn round_to_wide(x: i128, p: u32) -> (r: i128)
    requires
        -0x1_0000_0000_0000_0000 <= x <= 0x1_0000_0000_0000_0000,
    ensures
        r == round_to_spec(x as int, p as nat),
{
    let g: i64 = granule_of(p);
    let q: i128 = round_div_i128(x, g as i128);
    proof {
        if x >= 0 {
            lemma_round_div_bounds(x as int, g as int);
        } else {
            lemma_round_div_bounds(-(x as int), g as int);
        }
        assert(-0x1_0000_0000_0000_0000 * 1_000_000 <= q * g <= 0x1_0000_0000_0000_0000
            * 1_000_000) by (nonlinear_arith)
            requires
                -0x1_0000_0000_0000_0000 <= q <= 0x1_0000_0000_0000_0000,
                1 <= g <= 1_000_000,
        ;
    }
    q * (g as i128)
}

/// Rounds the scalar `x` to `p` decimal places. A tie goes away from zero,
/// and a result beyond the range of `i64` stops at its ends.
pub fn round_to(x: i64, p: u32) -> (r: i64)
    ensures
        r == saturate(round_to_spec(x as int, p as nat)),
{
    saturate_i128(round_to_wide(x as i128, p))
}

} // verus!
