//! Fixed-point inverse CDF of the standard normal distribution (Acklam's
//! rational approximation: three probability regions, each a ratio of two
//! polynomials with fixed published coefficients).
//!
//! Probabilities arrive in micro-units (millionths); results are z-scores in
//! nano-units (billionths), so `2_506_628_277` reads as z = 2.5066. All
//! arithmetic is exact integer work over `i128`, mirrored one-for-one by the
//! specification functions, and the result is clamped into `[-8, 8]`, far
//! outside the range the approximation can reach for admissible inputs.

use vstd::prelude::*;

use crate::num::{div_trunc, isqrt_spec, isqrt_u128, tdiv};

verus! {

/// One billion: the fixed-point scale of this module.
pub const SCALE: i128 = 1_000_000_000;

/// `ln 2` at nano scale.
pub const LN2_NANO: i128 = 693_147_181;

/// Central region bound: probabilities below `0.02425` use the lower-tail
/// formula (micro-units).
pub const P_LOW_MICRO: u64 = 24_250;

/// The defensive output bound: |z| never exceeds 8 for admissible inputs.
pub const Z_CLAMP_NANO: i128 = 8_000_000_000;

/// `tdiv` by a positive divisor shrinks magnitudes: if `|a| <= m * b` then
/// `|tdiv(a, b)| <= m`.
pub proof fn lemma_tdiv_bound(a: int, b: int, m: int)
    requires
        b > 0,
        m >= 0,
        -(m * b) <= a <= m * b,
    ensures
        -m <= tdiv(a, b) <= m,
{
    if a >= 0 {
        vstd::arithmetic::div_mod::lemma_div_is_ordered(a, m * b, b);
        vstd::arithmetic::div_mod::lemma_div_multiples_vanish(m, b);
        assert(m * b == b * m) by (nonlinear_arith);
        vstd::arithmetic::div_mod::lemma_div_pos_is_pos(a, b);
    } else {
        vstd::arithmetic::div_mod::lemma_div_is_ordered(-a, m * b, b);
        vstd::arithmetic::div_mod::lemma_div_multiples_vanish(m, b);
        assert(m * b == b * m) by (nonlinear_arith);
        vstd::arithmetic::div_mod::lemma_div_pos_is_pos(-a, b);
    }
}

/// One Horner step at nano scale: `acc * x / SCALE + c`, with the exact
/// value and a coarse magnitude bound for the overflow bookkeeping.
fn fp_step(acc: i128, x: i128, c: i128, cap: i128) -> (r: i128)
    requires
        0 <= cap <= 0x1000_0000_0000_0000,
        -cap <= acc <= cap,
        -10_000_000_000 <= x <= 10_000_000_000,
        -10_000_000_000_000 <= c <= 10_000_000_000_000,
    ensures
        r == tdiv(acc * x, SCALE as int) + c,
        -(cap * 11 + 10_000_000_000_000) <= r <= cap * 11 + 10_000_000_000_000,
{
    proof {
        assert(-(cap * 10_000_000_000) <= acc * x <= cap * 10_000_000_000) by (nonlinear_arith)
            requires
                -cap <= acc <= cap,
                -10_000_000_000 <= x <= 10_000_000_000,
                cap >= 0,
        ;
        assert(cap * 10_000_000_000 == (cap * 10) * (SCALE as int)) by (nonlinear_arith);
        lemma_tdiv_bound(acc * x, SCALE as int, cap * 10);
    }
    let shifted = div_trunc(acc * x, SCALE);
    shifted + c
}

/// `m`, doubled until it reaches `[SCALE/2, SCALE)` or the fuel runs out;
/// the mantissa of the fixed-point logarithm. Thirty doublings always
/// suffice for the inputs the module accepts.
pub open spec fn ln_norm_m(x: int, fuel: nat) -> int
    decreases fuel,
{
    if fuel == 0 || x >= 500_000_000 || x < 1 {
        x
    } else {
        ln_norm_m(2 * x, (fuel - 1) as nat)
    }
}

/// Number of doublings `ln_norm_m` performs.
pub open spec fn ln_norm_k(x: int, fuel: nat) -> int
    decreases fuel,
{
    if fuel == 0 || x >= 500_000_000 || x < 1 {
        0
    } else {
        1 + ln_norm_k(2 * x, (fuel - 1) as nat)
    }
}

/// Series for `ln(m / SCALE)` with `m` in `[SCALE/2, SCALE)`, via the
/// artanh expansion `2 (u + u^3/3 + ... + u^11/11)`, `u = (m-S)/(m+S)`.
pub open spec fn ln_series(m: int) -> int {
    let s = SCALE as int;
    let u = tdiv((m - s) * s, m + s);
    let u2 = tdiv(u * u, s);
    let p3 = tdiv(u * u2, s);
    let p5 = tdiv(p3 * u2, s);
    let p7 = tdiv(p5 * u2, s);
    let p9 = tdiv(p7 * u2, s);
    let p11 = tdiv(p9 * u2, s);
    2 * (u + tdiv(p3, 3) + tdiv(p5, 5) + tdiv(p7, 7) + tdiv(p9, 9) + tdiv(p11, 11))
}

/// Natural logarithm of `p_micro / 10^6` at nano scale, for probabilities in
/// `(0, 1)` given in micro-units.
pub open spec fn ln_frac_nano_spec(p_micro: u64) -> int {
    let x = p_micro as int * 1000;
    ln_series(ln_norm_m(x, 30)) - ln_norm_k(x, 30) * (LN2_NANO as int)
}

proof fn lemma_ln_norm_range(x: int, fuel: nat)
    requires
        1 <= x < 1_000_000_000,
    ensures
        1 <= ln_norm_m(x, fuel) < 1_000_000_000,
        0 <= ln_norm_k(x, fuel) <= fuel,
    decreases fuel,
{
    if fuel > 0 && x < 500_000_000 {
        lemma_ln_norm_range(2 * x, (fuel - 1) as nat);
    }
}

/// `tdiv` keeps the sign of its dividend.
pub proof fn lemma_tdiv_sign(a: int, b: int)
    requires
        b > 0,
    ensures
        a >= 0 ==> tdiv(a, b) >= 0,
        a <= 0 ==> tdiv(a, b) <= 0,
{
    if a >= 0 {
        vstd::arithmetic::div_mod::lemma_div_pos_is_pos(a, b);
    } else {
        vstd::arithmetic::div_mod::lemma_div_pos_is_pos(-a, b);
    }
}

/// `ln(p_micro / 10^6)` at nano scale; exact mirror of `ln_frac_nano_spec`.
fn ln_frac_nano(p_micro: u64) -> (r: i128)
    requires
        1 <= p_micro < 1_000_000,
    ensures
        r == ln_frac_nano_spec(p_micro),
        -33_000_000_000 <= r <= 0,
{
    let x0: i128 = p_micro as i128 * 1000;
    let mut m: i128 = x0;
    let mut k: i128 = 0;
    let mut f: u32 = 30;
    while m < 500_000_000 && f > 0
        invariant
            1 <= m < 1_000_000_000,
            0 <= k <= 30,
            k + f == 30,
            ln_norm_m(x0 as int, 30) == ln_norm_m(m as int, f as nat),
            ln_norm_k(x0 as int, 30) == k + ln_norm_k(m as int, f as nat),
        decreases f,
    {
        proof {
            assert(ln_norm_m(m as int, f as nat) == ln_norm_m(2 * (m as int), (f - 1) as nat));
            assert(ln_norm_k(m as int, f as nat) == 1 + ln_norm_k(2 * (m as int), (f - 1) as nat));
        }
        m = m * 2;
        k = k + 1;
        f = f - 1;
    }
    proof {
        assert(ln_norm_m(m as int, f as nat) == m as int);
        assert(ln_norm_k(m as int, f as nat) == 0);
    }
    let s: i128 = SCALE;
    proof {
        assert(-(1_000_000_000 * (m + s)) <= (m - s) * s <= 0) by (nonlinear_arith)
            requires
                1 <= m < 1_000_000_000,
                s == 1_000_000_000i128,
        ;
        lemma_tdiv_bound((m - s) * s, (m + s) as int, 1_000_000_000);
        lemma_tdiv_sign((m - s) * s, (m + s) as int);
    }
    let u: i128 = div_trunc((m - s) * s, m + s);
    proof {
        assert(0 <= u * u <= 1_000_000_000 * (s as int)) by (nonlinear_arith)
            requires
                -1_000_000_000 <= u <= 0,
                s == 1_000_000_000i128,
        ;
        lemma_tdiv_bound(u * u, s as int, 1_000_000_000);
        lemma_tdiv_sign(u * u, s as int);
    }
    let u2: i128 = div_trunc(u * u, s);
    proof {
        assert(-(1_000_000_000 * (s as int)) <= u * u2 <= 0) by (nonlinear_arith)
            requires
                -1_000_000_000 <= u <= 0,
                0 <= u2 <= 1_000_000_000,
                s == 1_000_000_000i128,
        ;
        lemma_tdiv_bound(u * u2, s as int, 1_000_000_000);
        lemma_tdiv_sign(u * u2, s as int);
    }
    let p3: i128 = div_trunc(u * u2, s);
    proof {
        assert(-(1_000_000_000 * (s as int)) <= p3 * u2 <= 0) by (nonlinear_arith)
            requires
                -1_000_000_000 <= p3 <= 0,
                0 <= u2 <= 1_000_000_000,
                s == 1_000_000_000i128,
        ;
        lemma_tdiv_bound(p3 * u2, s as int, 1_000_000_000);
        lemma_tdiv_sign(p3 * u2, s as int);
    }
    let p5: i128 = div_trunc(p3 * u2, s);
    proof {
        assert(-(1_000_000_000 * (s as int)) <= p5 * u2 <= 0) by (nonlinear_arith)
            requires
                -1_000_000_000 <= p5 <= 0,
                0 <= u2 <= 1_000_000_000,
                s == 1_000_000_000i128,
        ;
        lemma_tdiv_bound(p5 * u2, s as int, 1_000_000_000);
        lemma_tdiv_sign(p5 * u2, s as int);
    }
    let p7: i128 = div_trunc(p5 * u2, s);
    proof {
        assert(-(1_000_000_000 * (s as int)) <= p7 * u2 <= 0) by (nonlinear_arith)
            requires
                -1_000_000_000 <= p7 <= 0,
                0 <= u2 <= 1_000_000_000,
                s == 1_000_000_000i128,
        ;
        lemma_tdiv_bound(p7 * u2, s as int, 1_000_000_000);
        lemma_tdiv_sign(p7 * u2, s as int);
    }
    let p9: i128 = div_trunc(p7 * u2, s);
    proof {
        assert(-(1_000_000_000 * (s as int)) <= p9 * u2 <= 0) by (nonlinear_arith)
            requires
                -1_000_000_000 <= p9 <= 0,
                0 <= u2 <= 1_000_000_000,
                s == 1_000_000_000i128,
        ;
        lemma_tdiv_bound(p9 * u2, s as int, 1_000_000_000);
        lemma_tdiv_sign(p9 * u2, s as int);
    }
    let p11: i128 = div_trunc(p9 * u2, s);
    proof {
        lemma_tdiv_bound(p3 as int, 3, 1_000_000_000);
        lemma_tdiv_sign(p3 as int, 3);
        lemma_tdiv_bound(p5 as int, 5, 1_000_000_000);
        lemma_tdiv_sign(p5 as int, 5);
        lemma_tdiv_bound(p7 as int, 7, 1_000_000_000);
        lemma_tdiv_sign(p7 as int, 7);
        lemma_tdiv_bound(p9 as int, 9, 1_000_000_000);
        lemma_tdiv_sign(p9 as int, 9);
        lemma_tdiv_bound(p11 as int, 11, 1_000_000_000);
        lemma_tdiv_sign(p11 as int, 11);
    }
    let series: i128 = 2 * (u + div_trunc(p3, 3) + div_trunc(p5, 5) + div_trunc(p7, 7) + div_trunc(
        p9,
        9,
    ) + div_trunc(p11, 11));
    series - k * LN2_NANO
}

/// Clamp a nano-scale z value into the defensive output range.
pub open spec fn clamp_z(v: int) -> int {
    if v > Z_CLAMP_NANO as int {
        Z_CLAMP_NANO as int
    } else if v < -(Z_CLAMP_NANO as int) {
        -(Z_CLAMP_NANO as int)
    } else {
        v
    }
}

/// Numerator polynomial of the tail region (coefficients `C`, nano scale).
pub open spec fn tail_num_poly(q: int) -> int {
    let s = SCALE as int;
    let a1 = tdiv((-7_784_894) * q, s) + (-322_396_458);
    let a2 = tdiv(a1 * q, s) + (-2_400_758_277);
    let a3 = tdiv(a2 * q, s) + (-2_549_732_539);
    let a4 = tdiv(a3 * q, s) + 4_374_664_141;
    tdiv(a4 * q, s) + 2_938_163_983
}

/// Denominator polynomial of the tail region (coefficients `D`, nano scale).
pub open spec fn tail_den_poly(q: int) -> int {
    let s = SCALE as int;
    let b1 = tdiv(7_784_696 * q, s) + 322_467_129;
    let b2 = tdiv(b1 * q, s) + 2_445_134_137;
    let b3 = tdiv(b2 * q, s) + 3_754_408_662;
    tdiv(b3 * q, s) + s
}

/// Numerator polynomial of the central region (coefficients `A`).
pub open spec fn central_num_poly(r: int) -> int {
    let s = SCALE as int;
    let a1 = tdiv((-39_696_830_287) * r, s) + 220_946_098_425;
    let a2 = tdiv(a1 * r, s) + (-275_928_510_447);
    let a3 = tdiv(a2 * r, s) + 138_357_751_867;
    let a4 = tdiv(a3 * r, s) + (-30_664_798_066);
    tdiv(a4 * r, s) + 2_506_628_277
}

/// Denominator polynomial of the central region (coefficients `B`).
pub open spec fn central_den_poly(r: int) -> int {
    let s = SCALE as int;
    let b1 = tdiv((-54_476_098_798) * r, s) + 161_585_836_858;
    let b2 = tdiv(b1 * r, s) + (-155_698_979_860);
    let b3 = tdiv(b2 * r, s) + 66_801_311_888;
    let b4 = tdiv(b3 * r, s) + (-13_280_681_553);
    tdiv(b4 * r, s) + s
}

/// The z-score of the lower tail, for `p` in `[1, P_LOW_MICRO)` micro.
pub open spec fn tail_z_spec(p_micro: u64) -> int {
    let v = -2 * ln_frac_nano_spec(p_micro);
    let q = isqrt_spec((v * (SCALE as int)) as nat) as int;
    let den = tail_den_poly(q);
    if den <= 0 {
        0
    } else {
        clamp_z(tdiv(tail_num_poly(q) * (SCALE as int), den))
    }
}

/// Acklam's approximation of the inverse standard-normal CDF, fixed point:
/// probability in micro-units to z-score in nano-units.
pub open spec fn probit_nano_spec(p_micro: u64) -> int {
    if p_micro < P_LOW_MICRO {
        tail_z_spec(p_micro)
    } else if p_micro > 1_000_000 - P_LOW_MICRO {
        -tail_z_spec((1_000_000 - p_micro) as u64)
    } else {
        let q = (p_micro as int - 500_000) * 1000;
        let r = tdiv(q * q, SCALE as int);
        let den = central_den_poly(r);
        if den <= 0 {
            0
        } else {
            clamp_z(tdiv(central_num_poly(r) * q, den))
        }
    }
}

/// Lower-tail z-score; exact mirror of `tail_z_spec`.
fn tail_z(p_micro: u64) -> (r: i64)
    requires
        1 <= p_micro < P_LOW_MICRO,
    ensures
        r == tail_z_spec(p_micro),
        -(Z_CLAMP_NANO as int) <= r <= Z_CLAMP_NANO as int,
{
    let ln_p: i128 = ln_frac_nano(p_micro);
    let v: i128 = -(ln_p + ln_p);
    let q128: u128 = isqrt_u128((v as u128) * (SCALE as u128));
    proof {
        crate::num::lemma_isqrt_spec_bounds(((v as int) * (SCALE as int)) as nat);
        assert(q128 * q128 <= (v as u128) * (SCALE as u128));
        assert(q128 <= 10_000_000_000) by (nonlinear_arith)
            requires
                q128 * q128 <= (v as u128) * (SCALE as u128),
                0 <= v <= 66_000_000_000,
                SCALE == 1_000_000_000i128,
        ;
    }
    let q: i128 = q128 as i128;
    let a1 = fp_step(-7_784_894, q, -322_396_458, 1_000_000_000_000);
    let a2 = fp_step(a1, q, -2_400_758_277, 21_000_000_000_000);
    let a3 = fp_step(a2, q, -2_549_732_539, 250_000_000_000_000);
    let a4 = fp_step(a3, q, 4_374_664_141, 2_800_000_000_000_000);
    let num = fp_step(a4, q, 2_938_163_983, 32_000_000_000_000_000);
    let b1 = fp_step(7_784_696, q, 322_467_129, 1_000_000_000_000);
    let b2 = fp_step(b1, q, 2_445_134_137, 21_000_000_000_000);
    let b3 = fp_step(b2, q, 3_754_408_662, 250_000_000_000_000);
    let den = fp_step(b3, q, SCALE, 2_800_000_000_000_000);
    if den <= 0 {
        return 0;
    }
    let z = div_trunc(num * SCALE, den);
    clamp_z_exec(z)
}

/// Clamp into the defensive output range.
fn clamp_z_exec(v: i128) -> (r: i64)
    ensures
        r == clamp_z(v as int),
{
    if v > Z_CLAMP_NANO {
        Z_CLAMP_NANO as i64
    } else if v < -Z_CLAMP_NANO {
        -Z_CLAMP_NANO as i64
    } else {
        v as i64
    }
}

/// Inverse standard-normal CDF (Acklam's approximation) in fixed point:
/// probability in micro-units, z-score in nano-units.
pub fn probit_nano(p_micro: u64) -> (r: i64)
    requires
        1 <= p_micro <= 999_999,
    ensures
        r == probit_nano_spec(p_micro),
        -(Z_CLAMP_NANO as int) <= r <= Z_CLAMP_NANO as int,
{
    if p_micro < P_LOW_MICRO {
        tail_z(p_micro)
    } else if p_micro > 1_000_000 - P_LOW_MICRO {
        let z = tail_z(1_000_000 - p_micro);
        -z
    } else {
        let q: i128 = (p_micro as i128 - 500_000) * 1000;
        proof {
            assert(-(300_000_000 * (SCALE as int)) <= q * q <= 300_000_000 * (SCALE as int))
                by (nonlinear_arith)
                requires
                    -500_000_000 <= q <= 500_000_000,
                    SCALE == 1_000_000_000i128,
            ;
            lemma_tdiv_bound(q * q, SCALE as int, 300_000_000);
            lemma_tdiv_sign(q * q, SCALE as int);
        }
        let r128: i128 = div_trunc(q * q, SCALE);
        let a1 = fp_step(-39_696_830_287, r128, 220_946_098_425, 1_000_000_000_000);
        let a2 = fp_step(a1, r128, -275_928_510_447, 21_000_000_000_000);
        let a3 = fp_step(a2, r128, 138_357_751_867, 250_000_000_000_000);
        let a4 = fp_step(a3, r128, -30_664_798_066, 2_800_000_000_000_000);
        let num = fp_step(a4, r128, 2_506_628_277, 32_000_000_000_000_000);
        let b1 = fp_step(-54_476_098_798, r128, 161_585_836_858, 1_000_000_000_000);
        let b2 = fp_step(b1, r128, -155_698_979_860, 21_000_000_000_000);
        let b3 = fp_step(b2, r128, 66_801_311_888, 250_000_000_000_000);
        let b4 = fp_step(b3, r128, -13_280_681_553, 2_800_000_000_000_000);
        let den = fp_step(b4, r128, SCALE, 32_000_000_000_000_000);
        if den <= 0 {
            return 0;
        }
        proof {
            assert(-(0x4000_0000_0000_0000_0000_0000_0000i128) <= num * q <= (
            0x4000_0000_0000_0000_0000_0000_0000i128)) by (nonlinear_arith)
                requires
                    -360_000_000_000_000_000 <= num <= 360_000_000_000_000_000,
                    -500_000_000 <= q <= 500_000_000,
            ;
        }
        let z = div_trunc(num * q, den);
        clamp_z_exec(z)
    }
}

} // verus!
