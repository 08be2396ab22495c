//! 16.16 fixed-point scalars: every real quantity of the pipeline is an
//! `i64` holding the value scaled by `FX_ONE`. Results that would leave
//! the working range `[-FX_LIMIT, FX_LIMIT]` saturate; divisions round
//! toward negative infinity.

use vstd::prelude::*;
use vstd::arithmetic::div_mod::{
    lemma_fundamental_div_mod,
    lemma_fundamental_div_mod_converse,
    lemma_mod_add_multiples_vanish,
    lemma_mod_bound,
};
use vstd::arithmetic::div_mod::{lemma_div_multiples_vanish, lemma_div_of0};
use vstd::arithmetic::mul::{
    lemma_mul_is_commutative,
    lemma_mul_is_distributive_add_other_way,
    lemma_mul_unary_negation,
};

verus! {

/// One whole unit in fixed-point form.
pub const FX_ONE: i64 = 65536;

/// Half a unit: the offset from a pixel's corner to its center.
pub const FX_HALF: i64 = 32768;

/// Magnitude bound of the working range, 8192 whole units.
pub const FX_LIMIT: i64 = 536870912;

pub open spec fn fx_ok(x: int) -> bool {
    -FX_LIMIT <= x <= FX_LIMIT
}

pub open spec fn iabs(x: int) -> int {
    if x < 0 {
        -x
    } else {
        x
    }
}

/// Saturation into the working range.
pub open spec fn fx_clamp(x: int) -> int {
    if x > FX_LIMIT {
        FX_LIMIT as int
    } else if x < -FX_LIMIT {
        -(FX_LIMIT as int)
    } else {
        x
    }
}

/// Fixed-point product: the scaled product, floored and saturated.
pub open spec fn fx_mul_spec(a: int, b: int) -> int {
    fx_clamp((a * b) / (FX_ONE as int))
}

/// Fixed-point quotient: floor of the real quotient, saturated.
/// The divisor's sign is moved into the dividend so the division
/// below is always by a positive number.
pub open spec fn fx_div_spec(a: int, b: int) -> int
    recommends
        b != 0,
{
    if b < 0 {
        fx_clamp(((-a) * (FX_ONE as int)) / (-b))
    } else {
        fx_clamp((a * (FX_ONE as int)) / b)
    }
}

/// Clamp into `[0, FX_ONE]`, the range of lighting terms.
pub open spec fn fx_clamp01(x: int) -> int {
    if x < 0 {
        0
    } else if x > FX_ONE {
        FX_ONE as int
    } else {
        x
    }
}

pub fn fx_clamped(x: i64) -> (r: i64)
    ensures
        r == fx_clamp(x as int),
{
    if x > FX_LIMIT {
        FX_LIMIT
    } else if x < -FX_LIMIT {
        -FX_LIMIT
    } else {
        x
    }
}

pub fn fx_clamped01(x: i64) -> (r: i64)
    ensures
        r == fx_clamp01(x as int),
{
    if x < 0 {
        0
    } else if x > FX_ONE {
        FX_ONE
    } else {
        x
    }
}

/// Floor division of a wide signed dividend by a positive divisor,
/// carried out on magnitudes so that both machine divisions are on
/// non-negative values.
pub fn floor_div_i128(n: i128, d: i128) -> (q: i128)
    requires
        d > 0,
        n > i128::MIN,
    ensures
        q == n as int / d as int,
{
    if n >= 0 {
        let q0 = n / d;
        proof {
            lemma_fundamental_div_mod(n as int, d as int);
        }
        q0
    } else {
        let m = -n;
        let q0 = m / d;
        let r0 = m % d;
        proof {
            lemma_fundamental_div_mod(m as int, d as int);
        }
        if r0 == 0 {
            proof {
                lemma_mul_unary_negation(q0 as int, d as int);
                assert(n as int == (-(q0 as int)) * (d as int) + 0);
                lemma_fundamental_div_mod_converse(n as int, d as int, -(q0 as int), 0);
            }
            -q0
        } else {
            proof {
                lemma_mul_unary_negation(q0 as int + 1, d as int);
                lemma_mul_is_distributive_add_other_way(d as int, q0 as int, 1);
                assert(n as int == (-(q0 as int) - 1) * (d as int) + (d as int - r0 as int));
                lemma_fundamental_div_mod_converse(
                    n as int,
                    d as int,
                    -(q0 as int) - 1,
                    d as int - r0 as int,
                );
            }
            -q0 - 1
        }
    }
}

/// Product of two values bounded by `m` stays within `m * m`.
pub proof fn lemma_mul_bounds(a: int, b: int, m: int)
    requires
        0 <= m,
        -m <= a <= m,
        -m <= b <= m,
    ensures
        -(m * m) <= a * b <= m * m,
{
    assert(-(m * m) <= a * b <= m * m) by (nonlinear_arith)
        requires
            0 <= m,
            -m <= a <= m,
            -m <= b <= m,
    ;
}

/// Product of values bounded by `ma` and `mb` stays within their
/// product.
pub proof fn lemma_mul_bounds2(a: int, b: int, ma: int, mb: int)
    requires
        0 <= ma,
        0 <= mb,
        -ma <= a <= ma,
        -mb <= b <= mb,
    ensures
        -(ma * mb) <= a * b <= ma * mb,
{
    assert(-(ma * mb) <= a * b <= ma * mb) by (nonlinear_arith)
        requires
            0 <= ma,
            0 <= mb,
            -ma <= a <= ma,
            -mb <= b <= mb,
    ;
}

/// Fixed-point multiplication; total, with saturation.
pub fn fx_mul(a: i64, b: i64) -> (r: i64)
    ensures
        r == fx_mul_spec(a as int, b as int),
{
    proof {
        lemma_mul_bounds(a as int, b as int, 0x8000_0000_0000_0000);
    }
    let p: i128 = (a as i128) * (b as i128);
    let q = floor_div_i128(p, FX_ONE as i128);
    fx_clamped_i128(q)
}

/// Fixed-point division by a nonzero divisor; saturates.
pub fn fx_div(a: i64, b: i64) -> (r: i64)
    requires
        b != 0,
    ensures
        r == fx_div_spec(a as int, b as int),
{
    let (num, den): (i128, i128) = if b < 0 {
        (-(a as i128), -(b as i128))
    } else {
        (a as i128, b as i128)
    };
    proof {
        lemma_mul_bounds(num as int, FX_ONE as int, 0x8000_0000_0000_0000);
    }
    let q = floor_div_i128(num * (FX_ONE as i128), den);
    fx_clamped_i128(q)
}

/// Multiplying by one whole unit only saturates; by zero it vanishes.
pub proof fn lemma_fx_mul_one(a: int)
    ensures
        fx_mul_spec(a, FX_ONE as int) == fx_clamp(a),
        fx_mul_spec(FX_ONE as int, a) == fx_clamp(a),
        fx_mul_spec(a, 0) == 0,
        fx_mul_spec(0, a) == 0,
{
    lemma_div_multiples_vanish(a, FX_ONE as int);
    lemma_mul_is_commutative(a, FX_ONE as int);
    assert(a * 0 == 0) by (nonlinear_arith);
    assert(0 * a == 0) by (nonlinear_arith);
    lemma_div_of0(FX_ONE as int);
}

/// Dividing by one whole unit only saturates.
pub proof fn lemma_fx_div_one(a: int)
    ensures
        fx_div_spec(a, FX_ONE as int) == fx_clamp(a),
{
    lemma_div_multiples_vanish(a, FX_ONE as int);
    lemma_mul_is_commutative(a, FX_ONE as int);
}

/// Euclidean remainder by a positive modulus; always in `[0, d)`.
pub fn emod(n: i64, d: i64) -> (r: i64)
    requires
        d > 0,
        n > i64::MIN,
    ensures
        r == n as int % d as int,
        0 <= r < d,
{
    proof {
        lemma_mod_bound(n as int, d as int);
        lemma_fundamental_div_mod(n as int, d as int);
    }
    let q = floor_div_i128(n as i128, d as i128);
    let r_wide: i128 = n as i128 - (d as i128) * q;
    r_wide as i64
}

/// Period of the wave functions: four whole units.
pub const FX_PERIOD: i64 = 262144;

/// A triangle wave standing in for the sine: amplitude one unit,
/// period four units, zero at zero, peak at one unit.
pub open spec fn psin_spec(x: int) -> int {
    let m = x % (FX_PERIOD as int);
    if m < 2 * FX_ONE {
        FX_ONE - iabs(m - FX_ONE)
    } else {
        iabs(m - 3 * FX_ONE) - FX_ONE
    }
}

/// The wave a quarter period ahead, standing in for the cosine.
pub open spec fn pcos_spec(x: int) -> int {
    psin_spec(x + FX_ONE)
}

pub fn psin(x: i64) -> (r: i64)
    requires
        x > i64::MIN,
    ensures
        r == psin_spec(x as int),
        -FX_ONE <= r <= FX_ONE,
{
    let m = emod(x, FX_PERIOD);
    if m < FX_ONE {
        m
    } else if m < 3 * FX_ONE {
        2 * FX_ONE - m
    } else {
        m - 4 * FX_ONE
    }
}

pub fn pcos(x: i64) -> (r: i64)
    requires
        x > i64::MIN + FX_ONE,
        x < i64::MAX - FX_ONE,
    ensures
        r == pcos_spec(x as int),
        -FX_ONE <= r <= FX_ONE,
{
    psin(x + FX_ONE)
}

/// The wave never leaves `[-FX_ONE, FX_ONE]`.
pub proof fn lemma_psin_bounded(x: int)
    ensures
        -FX_ONE <= psin_spec(x) <= FX_ONE,
{
    lemma_mod_bound(x, FX_PERIOD as int);
}

/// The wave repeats every full period.
pub proof fn lemma_psin_periodic(x: int)
    ensures
        psin_spec(x + FX_PERIOD) == psin_spec(x),
{
    lemma_mod_add_multiples_vanish(x, FX_PERIOD as int);
}

fn fx_clamped_i128(x: i128) -> (r: i64)
    ensures
        r == fx_clamp(x as int),
{
    if x > FX_LIMIT as i128 {
        FX_LIMIT
    } else if x < -(FX_LIMIT as i128) {
        -FX_LIMIT
    } else {
        x as i64
    }
}

} // verus!
