//! Saturating binary fixed-point arithmetic for the solver.
//!
//! A value `v: i128` stands for the real number `v / SCALE`, with every
//! result clamped to `[-FX_MAX, FX_MAX]`. Division truncates toward zero,
//! as stated exactly by the spec functions here.

use vstd::prelude::*;
use vstd::arithmetic::power2::pow2;
use vstd::arithmetic::power2::lemma2_to64;
use vstd::arithmetic::power2::lemma2_to64_rest;
use vstd::arithmetic::power2::lemma_pow2_strictly_increases;
use vstd::arithmetic::div_mod::lemma_fundamental_div_mod_converse_div;
use vstd::arithmetic::div_mod::lemma_fundamental_div_mod_converse_mod;
use vstd::arithmetic::div_mod::lemma_div_is_ordered;
use vstd::arithmetic::div_mod::lemma_div_pos_is_pos;
use vstd::arithmetic::div_mod::lemma_div_nonincreasing;

verus! {

/// One in fixed-point units: `SCALE` raw units (two to the thirtieth)
/// stand for the real number 1.
pub const SCALE: i128 = 1073741824;

/// Largest representable magnitude (two to the sixty-second); every
/// arithmetic result is clamped to it.
pub const FX_MAX: i128 = 4611686018427387904;

/// Saturation: clamp an unbounded intermediate result into the value range.
pub open spec fn fx_clamp(v: int) -> int {
    if v > FX_MAX { FX_MAX as int } else if v < -FX_MAX { -FX_MAX as int } else { v }
}

/// Magnitude of a value.
pub open spec fn fx_abs(v: int) -> int {
    if v < 0 { -v } else { v }
}

/// Division truncating toward zero, for a positive divisor.
pub open spec fn sdiv(a: int, b: int) -> int
    recommends b > 0,
{
    if a >= 0 { a / b } else { -((-a) / b) }
}

/// A value is in range when its magnitude is at most `FX_MAX`.
pub open spec fn fx_in_range(v: int) -> bool {
    -FX_MAX <= v <= FX_MAX
}

/// Saturating addition: `fx_clamp(a + b)`.
pub fn fx_add(a: i128, b: i128) -> (r: i128)
    requires
        fx_in_range(a as int),
        fx_in_range(b as int),
    ensures
        r == fx_clamp(a + b),
        fx_in_range(r as int),
{
    let s = a + b;
    if s > FX_MAX { FX_MAX } else if s < -FX_MAX { -FX_MAX } else { s }
}

/// Magnitude, exactly `fx_abs`.
pub fn fx_abs_exec(a: i128) -> (r: i128)
    requires
        fx_in_range(a as int),
    ensures
        r == fx_abs(a as int),
        0 <= r <= FX_MAX,
{
    if a < 0 { -a } else { a }
}

/// Clamp an in-bounds `i128` into the value range, exactly `fx_clamp`.
pub fn fx_clamp_exec(v: i128) -> (r: i128)
    ensures
        r == fx_clamp(v as int),
        fx_in_range(r as int),
{
    if v > FX_MAX { FX_MAX } else if v < -FX_MAX { -FX_MAX } else { v }
}

/// Division truncating toward zero by a positive divisor, exactly `sdiv`.
pub(crate) fn div_trunc(a: i128, b: i128) -> (r: i128)
    requires
        b > 0,
        a != i128::MIN,
    ensures
        r == sdiv(a as int, b as int),
{
    if a >= 0 {
        let q = (a as u128) / (b as u128);
        proof {
            lemma_div_nonincreasing(a as int, b as int);
        }
        q as i128
    } else {
        let m = (-a) as u128;
        let q = m / (b as u128);
        proof {
            lemma_div_nonincreasing((-a) as int, b as int);
        }
        -(q as i128)
    }
}

/// Saturating fixed-point multiplication: the exact product, rescaled by
/// `SCALE` with truncation toward zero, then clamped.
pub open spec fn fx_mul_spec(a: int, b: int) -> int {
    fx_clamp(sdiv(a * b, SCALE as int))
}

/// Saturating fixed-point multiplication, exactly `fx_mul_spec`.
pub fn fx_mul(a: i128, b: i128) -> (r: i128)
    requires
        fx_in_range(a as int),
        fx_in_range(b as int),
    ensures
        r == fx_mul_spec(a as int, b as int),
        fx_in_range(r as int),
{
    proof {
        assert((-FX_MAX * FX_MAX) <= a * b <= FX_MAX * FX_MAX) by (nonlinear_arith)
            requires
                -FX_MAX <= a <= FX_MAX,
                -FX_MAX <= b <= FX_MAX,
        ;
    }
    let p = a * b;
    let q = div_trunc(p, SCALE);
    fx_clamp_exec(q)
}

/// The reciprocal `1 / s` in fixed point, truncated: `SCALE * SCALE / s`
/// in raw units.
pub open spec fn recip_spec(s: int) -> int
    recommends
        s >= 1,
{
    (SCALE * SCALE) as int / s
}

/// Fixed-point reciprocal of a positive value, exactly `recip_spec`.
pub fn fx_recip(s: i128) -> (r: i128)
    requires
        1 <= s <= FX_MAX,
    ensures
        r == recip_spec(s as int),
        0 <= r <= FX_MAX,
{
    proof {
        assert((SCALE as int) * (SCALE as int) == 1152921504606846976) by (nonlinear_arith);
    }
    let n: u128 = (SCALE as u128) * (SCALE as u128);
    let q = n / (s as u128);
    proof {
        lemma_div_nonincreasing(n as int, s as int);
        lemma_div_pos_is_pos(n as int, s as int);
    }
    q as i128
}

/// `2^e` for a small exponent, exactly vstd's `pow2`.
fn pow2_exec(e: u32) -> (r: i128)
    requires
        e <= 63,
    ensures
        r as int == pow2(e as nat),
        1 <= r,
{
    let mut r: i128 = 1;
    let mut i: u32 = 0;
    proof {
        lemma2_to64();
    }
    while i < e
        invariant
            i <= e <= 63,
            r as int == pow2(i as nat),
            1 <= r,
        decreases e - i,
    {
        proof {
            lemma2_to64();
            lemma2_to64_rest();
            if (i as nat) < 63 {
                lemma_pow2_strictly_increases(i as nat, 63);
            }
            assert(pow2((i + 1) as nat) == 2 * pow2(i as nat)) by {
                vstd::arithmetic::power2::lemma_pow2_unfold((i + 1) as nat);
            }
        }
        r = r * 2;
        i = i + 1;
    }
    r
}

/// `2^(x / SCALE)` in fixed point. The fractional part of the exponent is
/// covered by linear interpolation between neighbouring integer powers,
/// which is exact at every integer exponent; results saturate at `FX_MAX`
/// above and underflow to zero far below.
pub open spec fn exp2_spec(x: int) -> int {
    let q = x / (SCALE as int);
    let r = x % (SCALE as int);
    if q >= 33 {
        FX_MAX as int
    } else if q >= 0 {
        fx_clamp((SCALE + r) * pow2(q as nat))
    } else if q <= -32 {
        0
    } else {
        (SCALE + r) / pow2((-q) as nat) as int
    }
}

/// Fixed-point base-two exponential, exactly `exp2_spec`.
pub fn exp2_fx(x: i128) -> (r: i128)
    requires
        fx_in_range(x as int),
    ensures
        r == exp2_spec(x as int),
        0 <= r <= FX_MAX,
{
    proof {
        lemma2_to64();
        lemma2_to64_rest();
    }
    if x >= 0 {
        let q = ((x as u128) / (SCALE as u128)) as i128;
        let rem = ((x as u128) % (SCALE as u128)) as i128;
        if q >= 33 {
            FX_MAX
        } else {
            let p = pow2_exec(q as u32);
            proof {
                if (q as nat) < 33 {
                    lemma_pow2_strictly_increases(q as nat, 33);
                }
                assert((SCALE + rem) * p <= 2147483648 * 8589934592) by (nonlinear_arith)
                    requires
                        0 < SCALE + rem <= 2147483648,
                        0 < p <= 8589934592,
                ;
                assert((SCALE + rem) * p >= 0) by (nonlinear_arith)
                    requires
                        0 < SCALE + rem,
                        0 < p,
                ;
            }
            let v = (SCALE + rem) * p;
            fx_clamp_exec(v)
        }
    } else {
        let y = -x;
        let qy = ((y as u128) / (SCALE as u128)) as i128;
        let ry = ((y as u128) % (SCALE as u128)) as i128;
        if ry == 0 {
            proof {
                lemma_fundamental_div_mod_converse_div(x as int, SCALE as int, -qy, 0);
                lemma_fundamental_div_mod_converse_mod(x as int, SCALE as int, -qy, 0);
            }
            if qy >= 32 {
                0
            } else {
                let p = pow2_exec(qy as u32);
                proof {
                    lemma_div_nonincreasing(SCALE as int, p as int);
                    lemma_div_pos_is_pos(SCALE as int, p as int);
                }
                ((SCALE as u128) / (p as u128)) as i128
            }
        } else {
            proof {
                lemma_fundamental_div_mod_converse_div(x as int, SCALE as int, -qy - 1, SCALE - ry);
                lemma_fundamental_div_mod_converse_mod(x as int, SCALE as int, -qy - 1, SCALE - ry);
            }
            if qy >= 31 {
                0
            } else {
                let p = pow2_exec((qy + 1) as u32);
                let top = SCALE + (SCALE - ry);
                proof {
                    lemma_div_nonincreasing(top as int, p as int);
                    lemma_div_pos_is_pos(top as int, p as int);
                }
                ((top as u128) / (p as u128)) as i128
            }
        }
    }
}

/// The bounded activation curve with cap `cap`:
/// `cap * 2^x / (2^x + cap)`, truncated, clamped, and floored at one raw
/// unit so that the contribution of an opponent never vanishes entirely
/// nor reaches the cap.
pub open spec fn activation_spec(cap: int, x: int) -> int {
    let e = exp2_spec(x);
    let a = fx_clamp((cap * e) / (e + cap));
    if a < 1 { 1 } else { a }
}

/// Fixed-point activation, exactly `activation_spec`.
pub fn activation(cap: i128, x: i128) -> (r: i128)
    requires
        1 <= cap <= FX_MAX,
        fx_in_range(x as int),
    ensures
        r == activation_spec(cap as int, x as int),
        1 <= r <= FX_MAX,
{
    let e = exp2_fx(x);
    proof {
        assert(0 <= (cap as int) * (e as int) <= FX_MAX * FX_MAX) by (nonlinear_arith)
            requires
                0 < cap <= FX_MAX,
                0 <= e <= FX_MAX,
        ;
        lemma_div_pos_is_pos((cap as int) * (e as int), (e + cap) as int);
        lemma_div_nonincreasing((cap as int) * (e as int), (e + cap) as int);
    }
    let num = (cap as u128) * (e as u128);
    let den = (e as u128) + (cap as u128);
    let q = num / den;
    let qi = if q > (FX_MAX as u128) { FX_MAX } else { q as i128 };
    if qi < 1 { 1 } else { qi }
}

/// The base-two exponential always lands in the value range.
pub proof fn lemma_exp2_spec_bounds(x: int)
    ensures
        0 <= exp2_spec(x) <= FX_MAX,
{
    let q = x / (SCALE as int);
    let r = x % (SCALE as int);
    if q >= 33 {
    } else if q >= 0 {
        vstd::arithmetic::power2::lemma_pow2_pos(q as nat);
        assert((SCALE + r) * pow2(q as nat) >= 0) by (nonlinear_arith)
            requires
                0 < SCALE + r,
                0 < pow2(q as nat),
        ;
    } else if q <= -32 {
    } else {
        vstd::arithmetic::power2::lemma_pow2_pos((-q) as nat);
        lemma_div_pos_is_pos(SCALE + r, pow2((-q) as nat) as int);
        lemma_div_nonincreasing(SCALE + r, pow2((-q) as nat) as int);
    }
}

/// At exponent zero the exponential is exactly one: `exp2_spec(0) == SCALE`.
pub proof fn lemma_exp2_zero()
    ensures
        exp2_spec(0) == SCALE,
{
    vstd::arithmetic::div_mod::lemma_div_of0(SCALE as int);
    vstd::arithmetic::div_mod::lemma_small_mod(0, SCALE as nat);
    lemma2_to64();
}

/// Activation stays strictly between zero and the cap: for every
/// representable score `x` and every cap of at least two raw units,
/// `0 < activation_spec(cap, x) < cap`.
pub proof fn lemma_activation_bounds(cap: int, x: int)
    requires
        2 <= cap <= FX_MAX,
    ensures
        0 < activation_spec(cap, x) < cap,
{
    let e = exp2_spec(x);
    lemma_exp2_spec_bounds(x);
    let d = e + cap;
    assert(cap * e >= 0 && cap * e <= cap * d - 1 && cap * d - 1 == (cap - 1) * d + (d - 1))
        by (nonlinear_arith)
        requires
            2 <= cap,
            0 <= e,
            d == e + cap,
    ;
    lemma_div_is_ordered(cap * e, cap * d - 1, d);
    lemma_fundamental_div_mod_converse_div(cap * d - 1, d, cap - 1, d - 1);
    lemma_div_pos_is_pos(cap * e, d);
}

/// With a cap of exactly one, activation at score zero is exactly half the
/// cap: `activation_spec(SCALE, 0) == SCALE / 2`.
pub proof fn lemma_activation_unit_midpoint()
    ensures
        activation_spec(SCALE as int, 0) == (SCALE as int) / 2,
        activation_spec(SCALE as int, 0) == 536870912,
{
    lemma_exp2_zero();
    let e = SCALE as int;
    assert((SCALE as int) * e == 1152921504606846976) by (nonlinear_arith)
        requires
            e == SCALE as int,
    ;
    assert(536870912 * (e + SCALE) == 1152921504606846976) by (nonlinear_arith)
        requires
            e == SCALE as int,
    ;
    lemma_fundamental_div_mod_converse_div(1152921504606846976, e + SCALE, 536870912, 0);
    lemma_fundamental_div_mod_converse_div(SCALE as int, 2, 536870912, 0);
}

} // verus!
