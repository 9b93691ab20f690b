//! Fixed-point arithmetic for the audio engine.
//!
//! Every continuous quantity in the engine (amplitudes, volumes, panning,
//! playback rates, positions, beat counts) is an `i64` or `u64` holding the
//! quantity scaled by [`FX_ONE`]: a Q32.32 fixed-point number.  All operations
//! have exact integer specifications, so the whole signal path is
//! deterministic and bit-reproducible.

use vstd::prelude::*;

verus! {

use vstd::arithmetic::div_mod::{
    lemma_div_pos_is_pos, lemma_div_nonincreasing, lemma_fundamental_div_mod,
    lemma_div_is_ordered,
};

/// The fixed-point representation of 1.0.
pub const FX_ONE: i64 = 0x1_0000_0000;

/// The fixed-point representation of 1.0 as an unsigned value.
pub const FX_ONE_U: u64 = 0x1_0000_0000;

/// Clamp a mathematical integer into the `i64` range.
pub open spec fn sat_i64(x: int) -> int {
    if x > i64::MAX {
        i64::MAX as int
    } else if x < i64::MIN {
        i64::MIN as int
    } else {
        x
    }
}

/// Clamp a mathematical integer into the `u64` range.
pub open spec fn sat_u64(x: int) -> int {
    if x > u64::MAX {
        u64::MAX as int
    } else if x < 0 {
        0
    } else {
        x
    }
}

/// Saturating addition on `i64`, used when summing audio amplitudes.
pub fn sat_add_i64(a: i64, b: i64) -> (r: i64)
    ensures
        r == sat_i64(a + b),
{
    if b >= 0 {
        if a > i64::MAX - b {
            i64::MAX
        } else {
            a + b
        }
    } else {
        if a < i64::MIN - b {
            i64::MIN
        } else {
            a + b
        }
    }
}

/// Saturating negation on `i64`.
pub fn sat_neg_i64(a: i64) -> (r: i64)
    ensures
        r == sat_i64(0 - a),
{
    if a == i64::MIN {
        i64::MAX
    } else {
        -a
    }
}

/// Subtraction on `u64` that stops at zero, used for countdown timers.
pub fn sat_sub_u64(a: u64, b: u64) -> (r: u64)
    ensures
        r == sat_u64(a - b),
{
    if a >= b {
        a - b
    } else {
        0
    }
}

/// The product of two `i64` values fits in an `i128`.
proof fn lemma_mul_i64_fits(a: int, b: int)
    requires
        i64::MIN <= a <= i64::MAX,
        i64::MIN <= b <= i64::MAX,
    ensures
        i128::MIN <= a * b <= i128::MAX,
{
    assert(i128::MIN <= a * b <= i128::MAX) by (nonlinear_arith)
        requires
            -0x8000_0000_0000_0000 <= a <= 0x7fff_ffff_ffff_ffff,
            -0x8000_0000_0000_0000 <= b <= 0x7fff_ffff_ffff_ffff;
}

/// The product of two `u64` values fits in a `u128`.
proof fn lemma_mul_u64_fits(a: int, b: int)
    requires
        0 <= a <= u64::MAX,
        0 <= b <= u64::MAX,
    ensures
        0 <= a * b <= u128::MAX,
{
    assert(0 <= a * b <= u128::MAX) by (nonlinear_arith)
        requires
            0 <= a <= 0xffff_ffff_ffff_ffff,
            0 <= b <= 0xffff_ffff_ffff_ffff;
}

/// Quotients by a positive divisor stay between the dividend and zero.
proof fn lemma_div_bounds(x: int, d: int)
    requires
        d >= 1,
    ensures
        x >= 0 ==> 0 <= x / d <= x,
        x < 0 ==> x <= x / d <= 0,
{
    if x >= 0 {
        lemma_div_pos_is_pos(x, d);
        lemma_div_nonincreasing(x, d);
    } else {
        lemma_fundamental_div_mod(x, d);
        let q = x / d;
        let r = x % d;
        assert(x == d * q + r);
        assert(0 <= r < d);
        assert(q < 0) by (nonlinear_arith)
            requires x == d * q + r, x < 0, 0 <= r < d, d >= 1;
        assert(q >= x) by (nonlinear_arith)
            requires x == d * q + r, 0 <= r < d, d >= 1, x < 0;
        assert(x <= x / d <= 0);
    }
}

/// A nonnegative quotient by a positive divisor is at most the dividend.
pub proof fn lemma_div_nonneg_le(x: int, d: int)
    requires
        x >= 0,
        d >= 1,
    ensures
        0 <= x / d <= x,
{
    lemma_div_bounds(x, d);
}

/// Floor division of an `i128` by a positive divisor, exactly the
/// mathematical `/` of the specification language.
fn div_floor_i128(x: i128, d: i128) -> (r: i128)
    requires
        d >= 1,
    ensures
        r == x as int / d as int,
{
    proof {
        lemma_div_bounds(x as int, d as int);
    }
    match x.checked_div_euclid(d) {
        Some(q) => q,
        None => 0,
    }
}

/// `a * b / den` with a positive divisor, computed exactly in 128-bit
/// arithmetic and clamped into the `i64` range.
pub fn mul_div_i64(a: i64, b: i64, den: u64) -> (r: i64)
    requires
        den > 0,
    ensures
        r == sat_i64((a * b) / (den as int)),
{
    proof {
        lemma_mul_i64_fits(a as int, b as int);
    }
    let prod: i128 = (a as i128) * (b as i128);
    let q = div_floor_i128(prod, den as i128);
    proof {
        lemma_div_bounds(prod as int, den as int);
    }
    if q > i64::MAX as i128 {
        i64::MAX
    } else if q < i64::MIN as i128 {
        i64::MIN
    } else {
        q as i64
    }
}

/// `a * b / den` for wide operands whose product still fits 128 bits.
pub fn mul_div_i128(a: i128, b: i128, den: u64) -> (r: i128)
    requires
        den > 0,
        -0xffff_ffff_ffff_ffff <= a <= 0xffff_ffff_ffff_ffff,
        -0x8000_0000_0000_0000 <= b <= 0x8000_0000_0000_0000,
    ensures
        r == (a * b) / (den as int),
{
    proof {
        assert(i128::MIN <= a * b <= i128::MAX) by (nonlinear_arith)
            requires
                -0xffff_ffff_ffff_ffff <= a <= 0xffff_ffff_ffff_ffff,
                -0x8000_0000_0000_0000 <= b <= 0x8000_0000_0000_0000;
    }
    let prod: i128 = a * b;
    div_floor_i128(prod, den as i128)
}

/// Fixed-point multiplication: `a * b` scaled back down by [`FX_ONE`].
pub fn fx_mul(a: i64, b: i64) -> (r: i64)
    ensures
        r == sat_i64((a * b) / (FX_ONE as int)),
{
    mul_div_i64(a, b, FX_ONE_U)
}

/// `a * b / den` on unsigned values, clamped into the `u64` range.
pub fn mul_div_u64(a: u64, b: u64, den: u64) -> (r: u64)
    requires
        den > 0,
    ensures
        r == sat_u64((a * b) / (den as int)),
{
    proof {
        lemma_mul_u64_fits(a as int, b as int);
    }
    let prod: u128 = (a as u128) * (b as u128);
    let q = prod / (den as u128);
    proof {
        lemma_div_bounds(prod as int, den as int);
    }
    if q > u64::MAX as u128 {
        u64::MAX
    } else {
        q as u64
    }
}

/// The ceiling of `a / b`, written without widening.
pub open spec fn ceil_div_spec(a: int, b: int) -> int {
    if a % b == 0 {
        a / b
    } else {
        a / b + 1
    }
}

/// Division rounding up, used to size per-frame countdown steps.
pub fn ceil_div_u64(a: u64, b: u64) -> (r: u64)
    requires
        b > 0,
    ensures
        r == ceil_div_spec(a as int, b as int),
{
    let q = a / b;
    if a % b == 0 {
        q
    } else {
        proof {
            lemma_div_bounds(a as int, b as int);
            if q == u64::MAX {
                assert(a as int / b as int <= a as int);
                assert(b == 1 ==> a % b == 0) by {
                    assert(a as int % 1int == 0) by (nonlinear_arith);
                };
                assert(b >= 2);
                assert(false) by {
                    lemma_fundamental_div_mod(a as int, b as int);
                    assert((b as int) * (q as int) <= a as int);
                    assert((b as int) * (q as int) >= 2 * (q as int)) by (nonlinear_arith)
                        requires b as int >= 2, q as int >= 0;
                };
            }
        }
        q + 1
    }
}

/// Linear interpolation `a + (b - a) * t` for a fixed-point factor
/// `t` in `[0, 1]`, clamped into the `i64` range.
pub fn lerp_fx(a: i64, b: i64, t: u64) -> (r: i64)
    requires
        t <= FX_ONE_U,
    ensures
        r == sat_i64(a + ((b - a) * t) / (FX_ONE as int)),
{
    let diff: i128 = (b as i128) - (a as i128);
    proof {
        assert(i128::MIN <= diff * t <= i128::MAX) by (nonlinear_arith)
            requires
                -0x1_0000_0000_0000_0000 <= diff <= 0x1_0000_0000_0000_0000,
                0 <= t <= 0x1_0000_0000;
    }
    let scaled = div_floor_i128(diff * (t as i128), FX_ONE as i128);
    proof {
        lemma_div_bounds((diff * t) as int, FX_ONE as int);
    }
    let sum: i128 = (a as i128) + scaled;
    if sum > i64::MAX as i128 {
        i64::MAX
    } else if sum < i64::MIN as i128 {
        i64::MIN
    } else {
        sum as i64
    }
}

/// `x` raised to the `n`th power in fixed point, multiplying from the left:
/// `fx_pow(x, n) == (x * fx_pow(x, n - 1)) / FX_ONE`.
pub open spec fn fx_pow(x: int, n: nat) -> int
    decreases n,
{
    if n == 0 {
        FX_ONE as int
    } else {
        (x * fx_pow(x, (n - 1) as nat)) / (FX_ONE as int)
    }
}

/// A fixed-point power of a value in `[0, 1]` stays in `[0, 1]`.
pub proof fn lemma_fx_pow_bounds(x: int, n: nat)
    requires
        0 <= x <= FX_ONE,
    ensures
        0 <= fx_pow(x, n) <= FX_ONE,
    decreases n,
{
    if n > 0 {
        lemma_fx_pow_bounds(x, (n - 1) as nat);
        let p = fx_pow(x, (n - 1) as nat);
        assert(0 <= x * p <= FX_ONE * FX_ONE) by (nonlinear_arith)
            requires 0 <= x <= FX_ONE, 0 <= p <= FX_ONE;
        lemma_div_pos_is_pos(x * p, FX_ONE as int);
        lemma_div_is_ordered(x * p, (FX_ONE as int) * (FX_ONE as int), FX_ONE as int);
        assert((FX_ONE as int) * (FX_ONE as int) / (FX_ONE as int) == FX_ONE as int)
            by (nonlinear_arith);
    }
}

/// The fixed-point power is monotone in its base on `[0, 1]`.
pub proof fn lemma_fx_pow_monotone(x: int, y: int, n: nat)
    requires
        0 <= x <= y <= FX_ONE,
    ensures
        fx_pow(x, n) <= fx_pow(y, n),
    decreases n,
{
    if n > 0 {
        lemma_fx_pow_monotone(x, y, (n - 1) as nat);
        lemma_fx_pow_bounds(x, (n - 1) as nat);
        lemma_fx_pow_bounds(y, (n - 1) as nat);
        let px = fx_pow(x, (n - 1) as nat);
        let py = fx_pow(y, (n - 1) as nat);
        assert(x * px <= y * py) by (nonlinear_arith)
            requires 0 <= x <= y, 0 <= px <= py;
        lemma_div_is_ordered(x * px, y * py, FX_ONE as int);
    }
}

/// Raise a fixed-point value in `[0, 1]` to a small integer power.
pub fn fx_powi(x: u64, n: u32) -> (r: u64)
    requires
        x <= FX_ONE_U,
    ensures
        r == fx_pow(x as int, n as nat),
        r <= FX_ONE_U,
{
    let mut acc: u64 = FX_ONE_U;
    let mut i: u32 = 0;
    proof {
        lemma_fx_pow_bounds(x as int, n as nat);
    }
    while i < n
        invariant
            i <= n,
            x <= FX_ONE_U,
            acc == fx_pow(x as int, i as nat),
            acc <= FX_ONE_U,
        decreases n - i,
    {
        proof {
            lemma_fx_pow_bounds(x as int, (i + 1) as nat);
        }
        let next = mul_div_u64(x, acc, FX_ONE_U);
        proof {
            assert(0 <= (x as int) * (acc as int) <= (FX_ONE as int) * (FX_ONE as int))
                by (nonlinear_arith)
                requires 0 <= x as int <= FX_ONE as int, 0 <= acc as int <= FX_ONE as int;
            lemma_div_pos_is_pos((x as int) * (acc as int), FX_ONE as int);
            lemma_div_is_ordered(
                (x as int) * (acc as int),
                (FX_ONE as int) * (FX_ONE as int),
                FX_ONE as int,
            );
            assert((FX_ONE as int) * (FX_ONE as int) / (FX_ONE as int) == FX_ONE as int)
                by (nonlinear_arith);
        }
        acc = next;
        i = i + 1;
    }
    acc
}

/// Interpolating toward a target below the start is antitone in the factor.
pub proof fn lemma_lerp_antitone(a: int, b: int, t1: int, t2: int)
    requires
        i64::MIN <= a <= i64::MAX,
        i64::MIN <= b <= i64::MAX,
        b <= a,
        0 <= t1 <= t2 <= FX_ONE,
    ensures
        sat_i64(a + ((b - a) * t2) / (FX_ONE as int)) <= sat_i64(a + ((b - a) * t1) / (FX_ONE as int)),
{
    let d = b - a;
    assert(d * t2 <= d * t1) by (nonlinear_arith)
        requires d <= 0, 0 <= t1 <= t2;
    lemma_div_is_ordered(d * t2, d * t1, FX_ONE as int);
}

/// Interpolating toward a target above the start is monotone in the factor.
pub proof fn lemma_lerp_monotone(a: int, b: int, t1: int, t2: int)
    requires
        i64::MIN <= a <= i64::MAX,
        i64::MIN <= b <= i64::MAX,
        a <= b,
        0 <= t1 <= t2 <= FX_ONE,
    ensures
        sat_i64(a + ((b - a) * t1) / (FX_ONE as int)) <= sat_i64(a + ((b - a) * t2) / (FX_ONE as int)),
{
    let d = b - a;
    assert(d * t1 <= d * t2) by (nonlinear_arith)
        requires d >= 0, 0 <= t1 <= t2;
    lemma_div_is_ordered(d * t1, d * t2, FX_ONE as int);
}

/// Interpolation for a factor in `[0, 1]` stays between the endpoints.
pub proof fn lemma_lerp_in_range(a: int, b: int, t: int)
    requires
        i64::MIN <= a <= i64::MAX,
        i64::MIN <= b <= i64::MAX,
        0 <= t <= FX_ONE,
    ensures
        b <= a ==> b <= sat_i64(a + ((b - a) * t) / (FX_ONE as int)) <= a,
        a <= b ==> a <= sat_i64(a + ((b - a) * t) / (FX_ONE as int)) <= b,
{
    let d = b - a;
    if b <= a {
        lemma_lerp_antitone(a, b, 0, t);
        lemma_lerp_antitone(a, b, t, FX_ONE as int);
        assert(d * 0 == 0) by (nonlinear_arith);
        assert((d * FX_ONE) / (FX_ONE as int) == d) by (nonlinear_arith)
            requires FX_ONE as int > 0;
        assert(0int / (FX_ONE as int) == 0) by (nonlinear_arith);
    } else {
        lemma_lerp_monotone(a, b, 0, t);
        lemma_lerp_monotone(a, b, t, FX_ONE as int);
        assert(d * 0 == 0) by (nonlinear_arith);
        assert((d * FX_ONE) / (FX_ONE as int) == d) by (nonlinear_arith)
            requires FX_ONE as int > 0;
        assert(0int / (FX_ONE as int) == 0) by (nonlinear_arith);
    }
}

} // verus!
