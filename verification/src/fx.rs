//! Fixed-point scalar arithmetic.
//!
//! Every scalar quantity of the renderer (coordinates, colors, optical
//! coefficients) is an `i64` counting multiples of `1 / FX_ONE`.  The helpers
//! here round toward zero, like hardware division, and each one carries an
//! exact contract over the mathematical integers.

use vstd::prelude::*;

verus! {

/// One unit of the fixed-point scale: the integer that stands for 1.0.
pub const FX_ONE: i64 = 65536;

/// Magnitude of an integer.
pub open spec fn fx_abs(a: int) -> int {
    if a < 0 {
        -a
    } else {
        a
    }
}

/// Division rounding toward zero, for a positive divisor.
pub open spec fn div_t(n: int, d: int) -> int
    recommends
        d > 0,
{
    if n >= 0 {
        n / d
    } else {
        -((-n) / d)
    }
}

/// Division rounding toward zero, for a divisor of either sign.
pub open spec fn div_tz(n: int, d: int) -> int
    recommends
        d != 0,
{
    if d > 0 {
        div_t(n, d)
    } else {
        div_t(-n, -d)
    }
}

/// The fixed-point product: `a * b` descaled by one unit, rounded toward zero.
pub open spec fn fmul(a: int, b: int) -> int {
    div_t(a * b, FX_ONE as int)
}

/// The fixed-point quotient: `a / b` rescaled by one unit, rounded toward zero.
pub open spec fn fdiv(a: int, b: int) -> int
    recommends
        b != 0,
{
    div_tz(a * FX_ONE, b)
}

/// Largest raw product magnitude the fixed-point helpers accept (2^78); the
/// descaled result then stays within 2^62, well inside `i64`.
pub open spec fn fx_prod_max() -> int {
    0x4000_0000_0000_0000_0000
}

/// The integer square root: the largest `r` with `r * r <= n`.
pub open spec fn sqrt_floor(n: nat) -> nat
    decreases n,
{
    if n == 0 {
        0
    } else {
        let r = sqrt_floor((n - 1) as nat);
        if (r + 1) * (r + 1) <= n {
            r + 1
        } else {
            r
        }
    }
}

pub proof fn lemma_sqrt_floor_props(n: nat)
    ensures
        sqrt_floor(n) * sqrt_floor(n) <= n,
        n < (sqrt_floor(n) + 1) * (sqrt_floor(n) + 1),
        sqrt_floor(n) <= n,
    decreases n,
{
    if n > 0 {
        lemma_sqrt_floor_props((n - 1) as nat);
        let r = sqrt_floor((n - 1) as nat);
        assert(sqrt_floor(n) == if (r + 1) * (r + 1) <= n {
            r + 1
        } else {
            r
        });
        if (r + 1) * (r + 1) <= n {
            assert(sqrt_floor(n) == r + 1);
            assert(n < (r + 2) * (r + 2)) by (nonlinear_arith)
                requires
                    (n - 1) < (r + 1) * (r + 1),
            ;
            assert(r + 1 <= n) by (nonlinear_arith)
                requires
                    (r + 1) * (r + 1) <= n,
            ;
            assert(sqrt_floor(n) * sqrt_floor(n) <= n);
            assert(n < (sqrt_floor(n) + 1) * (sqrt_floor(n) + 1));
        } else {
            assert(sqrt_floor(n) == r);
            assert(sqrt_floor(n) * sqrt_floor(n) <= n);
            assert(n < (sqrt_floor(n) + 1) * (sqrt_floor(n) + 1));
        }
    } else {
        assert(sqrt_floor(n) == 0);
        assert((sqrt_floor(n) + 1) * (sqrt_floor(n) + 1) == 1) by (nonlinear_arith)
            requires
                sqrt_floor(n) == 0,
        ;
    }
}

/// Any integer between the squares of `r` and `r + 1` pins the square root down.
pub proof fn lemma_sqrt_floor_unique(n: nat, r: nat)
    requires
        r * r <= n,
        n < (r + 1) * (r + 1),
    ensures
        sqrt_floor(n) == r,
{
    lemma_sqrt_floor_props(n);
    let s = sqrt_floor(n);
    if s < r {
        assert((s + 1) * (s + 1) <= r * r) by (nonlinear_arith)
            requires
                s + 1 <= r,
        ;
    }
    if r < s {
        assert((r + 1) * (r + 1) <= s * s) by (nonlinear_arith)
            requires
                r + 1 <= s,
        ;
    }
}

pub proof fn lemma_sqrt_floor_mono(m: nat, n: nat)
    requires
        m <= n,
    ensures
        sqrt_floor(m) <= sqrt_floor(n),
{
    lemma_sqrt_floor_props(m);
    lemma_sqrt_floor_props(n);
    let a = sqrt_floor(m);
    let b = sqrt_floor(n);
    if b < a {
        assert((b + 1) * (b + 1) <= a * a) by (nonlinear_arith)
            requires
                b + 1 <= a,
        ;
    }
}

/// The square root of a perfect square.
pub proof fn lemma_sqrt_floor_square(r: nat)
    ensures
        sqrt_floor(r * r) == r,
{
    assert(r * r < (r + 1) * (r + 1)) by (nonlinear_arith);
    lemma_sqrt_floor_unique(r * r, r);
}

/// Magnitudes multiply: `|a * b| == |a| * |b|`.
pub proof fn lemma_abs_mul(a: int, b: int)
    by (nonlinear_arith)
    ensures
        fx_abs(a * b) == fx_abs(a) * fx_abs(b),
{
}

/// Bounds multiply: from `|a| <= am` and `|b| <= bm` follows `|a * b| <= am * bm`.
pub proof fn lemma_mul_le(a: int, am: int, b: int, bm: int)
    by (nonlinear_arith)
    requires
        fx_abs(a) <= am,
        fx_abs(b) <= bm,
    ensures
        fx_abs(a * b) <= am * bm,
{
}

/// Truncating division shrinks magnitudes monotonically.
pub proof fn lemma_div_t_bound(n: int, m: int, d: int)
    requires
        d > 0,
        fx_abs(n) <= m,
    ensures
        fx_abs(div_t(n, d)) <= m / d,
        fx_abs(div_t(n, d)) == fx_abs(n) / d,
{
    if n >= 0 {
        vstd::arithmetic::div_mod::lemma_div_pos_is_pos(n, d);
        vstd::arithmetic::div_mod::lemma_div_is_ordered(n, m, d);
    } else {
        vstd::arithmetic::div_mod::lemma_div_pos_is_pos(-n, d);
        vstd::arithmetic::div_mod::lemma_div_is_ordered(-n, m, d);
    }
}

/// The fixed-point product of values bounded by `am` and `bm` stays within
/// `am * bm / FX_ONE`.
pub proof fn lemma_fmul_bound(a: int, b: int, am: int, bm: int)
    requires
        fx_abs(a) <= am,
        fx_abs(b) <= bm,
    ensures
        fx_abs(a * b) <= am * bm,
        fx_abs(fmul(a, b)) <= (am * bm) / (FX_ONE as int),
{
    lemma_mul_le(a, am, b, bm);
    lemma_div_t_bound(a * b, am * bm, FX_ONE as int);
}

/// Multiplying by one unit is the identity.
pub proof fn lemma_fmul_one(a: int)
    ensures
        fmul(a, FX_ONE as int) == a,
{
    vstd::arithmetic::div_mod::lemma_div_multiples_vanish(a, FX_ONE as int);
    vstd::arithmetic::div_mod::lemma_div_multiples_vanish(-a, FX_ONE as int);
    assert(a * FX_ONE == FX_ONE * a) by (nonlinear_arith);
    assert(-(a * FX_ONE) == FX_ONE * -a) by (nonlinear_arith);
}

/// Fixed-point products of values in `[0, FX_ONE]` stay in `[0, FX_ONE]` and
/// never exceed either factor.
pub proof fn lemma_fmul_unit(a: int, b: int)
    requires
        0 <= a,
        0 <= b <= FX_ONE,
    ensures
        0 <= fmul(a, b),
        fmul(a, b) <= a,
        a <= FX_ONE ==> fmul(a, b) <= b,
{
    assert(0 <= a * b <= a * FX_ONE) by (nonlinear_arith)
        requires
            0 <= a,
            0 <= b <= FX_ONE,
    ;
    vstd::arithmetic::div_mod::lemma_div_pos_is_pos(a * b, FX_ONE as int);
    vstd::arithmetic::div_mod::lemma_div_is_ordered(a * b, a * FX_ONE, FX_ONE as int);
    vstd::arithmetic::div_mod::lemma_div_multiples_vanish(a, FX_ONE as int);
    assert(a * FX_ONE == FX_ONE * a) by (nonlinear_arith);
    if a <= FX_ONE {
        assert(a * b <= b * FX_ONE) by (nonlinear_arith)
            requires
                0 <= b,
                0 <= a <= FX_ONE,
        ;
        vstd::arithmetic::div_mod::lemma_div_is_ordered(a * b, b * FX_ONE, FX_ONE as int);
        vstd::arithmetic::div_mod::lemma_div_multiples_vanish(b, FX_ONE as int);
        assert(b * FX_ONE == FX_ONE * b) by (nonlinear_arith);
    }
}

/// A nonnegative fixed-point product grows with either factor.
pub proof fn lemma_fmul_mono(a1: int, a2: int, b: int)
    requires
        0 <= a1 <= a2,
        0 <= b,
    ensures
        fmul(a1, b) <= fmul(a2, b),
        0 <= fmul(a1, b),
{
    assert(0 <= a1 * b <= a2 * b) by (nonlinear_arith)
        requires
            0 <= a1 <= a2,
            0 <= b,
    ;
    vstd::arithmetic::div_mod::lemma_div_pos_is_pos(a1 * b, FX_ONE as int);
    vstd::arithmetic::div_mod::lemma_div_is_ordered(a1 * b, a2 * b, FX_ONE as int);
}

/// A quotient is no larger in magnitude than its dividend once the divisor is
/// at least one unit; against any nonzero divisor it gains at most one scale.
pub proof fn lemma_fdiv_bound(a: int, b: int)
    requires
        b != 0,
    ensures
        fx_abs(b) >= FX_ONE ==> fx_abs(fdiv(a, b)) <= fx_abs(a),
        fx_abs(a) <= fx_abs(b) ==> fx_abs(fdiv(a, b)) <= FX_ONE,
        fx_abs(fdiv(a, b)) <= fx_abs(a) * (FX_ONE as int),
{
    let n = a * FX_ONE;
    let d = fx_abs(b);
    let q = fx_abs(n) / d;
    lemma_abs_mul(a, FX_ONE as int);
    assert(fx_abs(fdiv(a, b)) == q) by {
        if b > 0 {
            lemma_div_t_bound(n, fx_abs(n), d);
        } else {
            lemma_div_t_bound(-n, fx_abs(n), d);
        }
    }
    if d >= FX_ONE {
        assert(fx_abs(a) * FX_ONE <= fx_abs(a) * d || fx_abs(a) == 0) by (nonlinear_arith)
            requires
                d >= FX_ONE,
        ;
        vstd::arithmetic::div_mod::lemma_div_is_ordered(fx_abs(n), fx_abs(a) * d, d);
        vstd::arithmetic::div_mod::lemma_div_multiples_vanish(fx_abs(a), d);
        assert(fx_abs(a) * d == d * fx_abs(a)) by (nonlinear_arith);
    }
    if fx_abs(a) <= d {
        assert(fx_abs(a) * FX_ONE <= d * FX_ONE) by (nonlinear_arith)
            requires
                fx_abs(a) <= d,
    ;
        vstd::arithmetic::div_mod::lemma_div_is_ordered(fx_abs(n), d * FX_ONE, d);
        vstd::arithmetic::div_mod::lemma_div_multiples_vanish(FX_ONE as int, d);
        assert(d * FX_ONE == d * (FX_ONE as int)) by (nonlinear_arith);
    }
    assert(q <= fx_abs(n)) by {
        vstd::arithmetic::div_mod::lemma_div_nonincreasing(fx_abs(n), d);
        vstd::arithmetic::div_mod::lemma_div_pos_is_pos(fx_abs(n), d);
    }
}

/// Magnitude of a scalar, as the unsigned computation the helpers share.
fn mag_u128(a: i64) -> (r: u128)
    ensures
        r == fx_abs(a as int),
{
    if a >= 0 {
        a as u128
    } else {
        (-(a as i128)) as u128
    }
}

/// Fixed-point multiplication, exact to the spec-level `fmul`.
pub fn fx_mul(a: i64, b: i64) -> (r: i64)
    requires
        fx_abs((a as int) * (b as int)) <= fx_prod_max(),
    ensures
        r == fmul(a as int, b as int),
        fx_abs(r as int) <= 0x4000_0000_0000_0000,
{
    let am = mag_u128(a);
    let bm = mag_u128(b);
    proof {
        assert(am * bm <= 0x4000_0000_0000_0000_0000_0000_0000_0000) by (nonlinear_arith)
            requires
                am <= 0x8000_0000_0000_0000,
                bm <= 0x8000_0000_0000_0000,
        ;
    }
    let p: u128 = am * bm;
    let q: u128 = p / 65536;
    let neg = (a < 0) != (b < 0);
    proof {
        lemma_abs_mul(a as int, b as int);
        lemma_div_t_bound((a as int) * (b as int), fx_prod_max(), FX_ONE as int);
        if neg {
            assert((a as int) * (b as int) <= 0) by (nonlinear_arith)
                requires
                    (a < 0) != (b < 0),
            ;
        } else {
            assert((a as int) * (b as int) >= 0) by (nonlinear_arith)
                requires
                    (a < 0) == (b < 0),
            ;
        }
    }
    if neg {
        (-(q as i128)) as i64
    } else {
        q as i64
    }
}

/// Fixed-point division, exact to the spec-level `fdiv`.
pub fn fx_div(a: i64, b: i64) -> (r: i64)
    requires
        b != 0,
        fx_abs(fdiv(a as int, b as int)) <= 0x4000_0000_0000_0000,
    ensures
        r == fdiv(a as int, b as int),
{
    let am = mag_u128(a);
    let bm = mag_u128(b);
    let q: u128 = (am * 65536) / bm;
    let neg = (a < 0) != (b < 0);
    proof {
        let n = (a as int) * FX_ONE;
        lemma_abs_mul(a as int, FX_ONE as int);
        assert(fx_abs(fdiv(a as int, b as int)) == fx_abs(n) / fx_abs(b as int)) by {
            if b > 0 {
                lemma_div_t_bound(n, fx_abs(n), b as int);
            } else {
                lemma_div_t_bound(-n, fx_abs(n), -(b as int));
            }
        }
        if neg {
            assert(fdiv(a as int, b as int) == -(fx_abs(n) / fx_abs(b as int))) by {
                if b > 0 {
                    lemma_div_t_bound(n, fx_abs(n), b as int);
                } else {
                    lemma_div_t_bound(-n, fx_abs(n), -(b as int));
                }
            }
        } else {
            assert(fdiv(a as int, b as int) == fx_abs(n) / fx_abs(b as int)) by {
                if b > 0 {
                    lemma_div_t_bound(n, fx_abs(n), b as int);
                } else {
                    lemma_div_t_bound(-n, fx_abs(n), -(b as int));
                }
            }
        }
    }
    if neg {
        (-(q as i128)) as i64
    } else {
        q as i64
    }
}

/// The integer square root of a raw (already scaled) nonnegative quantity.
pub fn isqrt_u128(n: u128) -> (r: u128)
    requires
        n < 0x1_0000_0000_0000_0000_0000,
    ensures
        r == sqrt_floor(n as nat),
        r <= 0x100_0000_0000,
{
    let mut lo: u128 = 0;
    let mut hi: u128 = 0x100_0000_0000;
    proof {
        assert(0x100_0000_0000 * 0x100_0000_0000 == 0x1_0000_0000_0000_0000_0000int) by (nonlinear_arith);
    }
    while hi - lo > 1
        invariant
            lo < hi <= 0x100_0000_0000,
            (lo as int) * (lo as int) <= n,
            n < (hi as int) * (hi as int),
        decreases hi - lo,
    {
        let mid = lo + (hi - lo) / 2;
        proof {
            assert(mid * mid <= 0x1_0000_0000_0000_0000_0000) by (nonlinear_arith)
                requires
                    mid <= 0x100_0000_0000,
            ;
        }
        if mid * mid <= n {
            lo = mid;
        } else {
            hi = mid;
        }
    }
    proof {
        lemma_sqrt_floor_unique(n as nat, lo as nat);
    }
    lo
}

/// The fixed-point square root: `sqrt_floor` of the value raised back to the
/// raw scale, so that the result carries the same scale as the argument.
pub fn fx_sqrt(a: i64) -> (r: i64)
    requires
        a >= 0,
    ensures
        r == sqrt_floor((a * FX_ONE) as nat),
        0 <= r <= 0x100_0000_0000,
{
    let n: u128 = (a as u128) * 65536;
    let r = isqrt_u128(n);
    r as i64
}

/// Clamp into `[lo, hi]`.
pub open spec fn clamp_s(v: int, lo: int, hi: int) -> int {
    if v < lo {
        lo
    } else if v > hi {
        hi
    } else {
        v
    }
}

pub fn fx_clamp(v: i64, lo: i64, hi: i64) -> (r: i64)
    requires
        lo <= hi,
    ensures
        r == clamp_s(v as int, lo as int, hi as int),
{
    if v < lo {
        lo
    } else if v > hi {
        hi
    } else {
        v
    }
}

/// The Euclidean remainder against one unit: the wrap-around used for texture
/// coordinates, always in `[0, FX_ONE)`.
pub fn fx_wrap(u: i64) -> (r: i64)
    ensures
        r == (u as int) % (FX_ONE as int),
        0 <= r < FX_ONE,
{
    if u >= 0 {
        (((u as u64) % 65536) as i64)
    } else {
        let m = (((-(u as i128)) as u128) % 65536) as u64;
        proof {
            let neg = -(u as int);
            vstd::arithmetic::div_mod::lemma_fundamental_div_mod(neg, 65536);
            let q = neg / 65536;
            if m == 0 {
                vstd::arithmetic::div_mod::lemma_fundamental_div_mod_converse(
                    u as int,
                    65536,
                    -q,
                    0,
                );
            } else {
                vstd::arithmetic::div_mod::lemma_fundamental_div_mod_converse(
                    u as int,
                    65536,
                    -q - 1,
                    65536 - m,
                );
            }
        }
        if m == 0 {
            0
        } else {
            (65536 - m) as i64
        }
    }
}

/// Fixed-point exponentiation by a whole exponent, for bases in `[0, 1]`.
pub open spec fn fpow(b: int, e: nat) -> int
    decreases e,
{
    if e == 0 {
        FX_ONE as int
    } else {
        fmul(b, fpow(b, (e - 1) as nat))
    }
}

pub proof fn lemma_fpow_unit(b: int, e: nat)
    requires
        0 <= b <= FX_ONE,
    ensures
        0 <= fpow(b, e) <= FX_ONE,
    decreases e,
{
    if e > 0 {
        lemma_fpow_unit(b, (e - 1) as nat);
        lemma_fmul_unit(b, fpow(b, (e - 1) as nat));
        lemma_fmul_unit(fpow(b, (e - 1) as nat), b);
        assert(b * fpow(b, (e - 1) as nat) == fpow(b, (e - 1) as nat) * b) by (nonlinear_arith);
    }
}

pub fn fx_pow(base: i64, e: u32) -> (r: i64)
    requires
        0 <= base <= FX_ONE,
    ensures
        r == fpow(base as int, e as nat),
        0 <= r <= FX_ONE,
{
    let mut r: i64 = FX_ONE;
    let mut i: u32 = 0;
    proof {
        lemma_fpow_unit(base as int, 0);
    }
    while i < e
        invariant
            i <= e,
            0 <= base <= FX_ONE,
            r == fpow(base as int, i as nat),
            0 <= r <= FX_ONE,
        decreases e - i,
    {
        proof {
            lemma_fmul_bound(base as int, r as int, FX_ONE as int, FX_ONE as int);
            lemma_fpow_unit(base as int, (i + 1) as nat);
        }
        r = fx_mul(base, r);
        i = i + 1;
    }
    r
}

} // verus!
