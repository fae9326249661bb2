//! Fixed-point amplitude arithmetic.
//!
//! A sample is an `i32` in fixed point: [`FP_ONE`] units stand for an
//! amplitude of 1.0, so the nominal range of a full-scale signal is
//! `-FP_ONE ..= FP_ONE`.  Values outside that range are legal (the signal
//! chain averages and interpolates them exactly); only PCM encoding clamps.
//!
//! All divisions in the signal chain round to nearest (ties towards positive
//! infinity), written [`round_div_spec`] in contracts.

use vstd::prelude::*;
use vstd::arithmetic::div_mod::{lemma_fundamental_div_mod, lemma_mod_bound};

verus! {

/// Fixed-point units per 1.0 of amplitude.
pub const FP_ONE: i32 = 65536;

/// Largest value of a signed 16-bit PCM sample.
pub const PCM_MAX: i32 = 32767;

/// Smallest value of a signed 16-bit PCM sample.
pub const PCM_MIN: i32 = -32768;

/// `a / b` rounded to the nearest integer, ties towards positive infinity.
pub open spec fn round_div_spec(a: int, b: int) -> int
    recommends
        b >= 1,
{
    (2 * a + b) / (2 * b)
}

/// Rounded division misses the exact quotient by at most half the divisor:
/// `round_div_spec(a, b) * b` lies within `(a - b/2, a + b/2]`.
pub proof fn lemma_round_div_err(a: int, b: int)
    requires
        b >= 1,
    ensures
        -b < 2 * (b * round_div_spec(a, b) - a) <= b,
{
    let q = round_div_spec(a, b);
    let r = (2 * a + b) % (2 * b);
    lemma_fundamental_div_mod(2 * a + b, 2 * b);
    lemma_mod_bound(2 * a + b, 2 * b);
    assert(2 * a + b == 2 * b * q + r);
    assert(2 * (b * q - a) == b - r) by {
        assert(2 * b * q == 2 * (b * q)) by (nonlinear_arith);
    }
}

/// If `a` lies between `lo * b` and `hi * b`, the rounded quotient lies
/// between `lo` and `hi`.
pub proof fn lemma_round_div_range(a: int, b: int, lo: int, hi: int)
    requires
        b >= 1,
        lo * b <= a,
        a <= hi * b,
    ensures
        lo <= round_div_spec(a, b) <= hi,
{
    let q = round_div_spec(a, b);
    lemma_round_div_err(a, b);
    if q < lo {
        assert(b * q <= b * lo - b) by (nonlinear_arith)
            requires
                b >= 1,
                q <= lo - 1,
        ;
        assert(b * lo == lo * b) by (nonlinear_arith);
    }
    if q > hi {
        assert(b * q >= b * hi + b) by (nonlinear_arith)
            requires
                b >= 1,
                q >= hi + 1,
        ;
        assert(b * hi == hi * b) by (nonlinear_arith);
    }
}

/// Floor division `n / d` (Euclidean for positive divisors) on machine
/// integers; Rust's `/` truncates towards zero instead.
pub fn floor_div(n: i128, d: i128) -> (q: i128)
    requires
        1 <= d,
        -(i128::MAX / 2) <= n <= i128::MAX / 2,
        d <= i128::MAX / 2,
    ensures
        q == n as int / d as int,
{
    if n >= 0 {
        let q = (n as u128) / (d as u128);
        q as i128
    } else {
        let m = (-n) as u128;
        let qq = (m + (d as u128) - 1) / (d as u128);
        proof {
            lemma_floor_div_neg(n as int, d as int);
        }
        -(qq as i128)
    }
}

/// For a negative numerator and positive divisor, floor division is the
/// negated ceiling division of the magnitudes.
proof fn lemma_floor_div_neg(n: int, d: int)
    requires
        d >= 1,
        n < 0,
    ensures
        n / d == -((-n + d - 1) / d),
{
    let q1 = n / d;
    let r1 = n % d;
    let q2 = (-n + d - 1) / d;
    let r2 = (-n + d - 1) % d;
    lemma_fundamental_div_mod(n, d);
    lemma_mod_bound(n, d);
    lemma_fundamental_div_mod(-n + d - 1, d);
    lemma_mod_bound(-n + d - 1, d);
    assert(d - 1 == d * q1 + r1 + d * q2 + r2);
    assert(d * q1 + d * q2 == d * (q1 + q2)) by (nonlinear_arith);
    assert(d * (q1 + q2) == d - 1 - r1 - r2);
    if q1 + q2 >= 1 {
        assert(d * (q1 + q2) >= d) by (nonlinear_arith)
            requires
                d >= 1,
                q1 + q2 >= 1,
        ;
    }
    if q1 + q2 <= -1 {
        assert(d * (q1 + q2) <= -d) by (nonlinear_arith)
            requires
                d >= 1,
                q1 + q2 <= -1,
        ;
    }
    assert(q1 + q2 == 0);
}

/// `a / b` rounded to nearest, ties towards positive infinity, on machine
/// integers.
pub fn round_div(a: i128, b: i128) -> (r: i128)
    requires
        1 <= b <= i128::MAX / 8,
        -(i128::MAX / 8) <= a <= i128::MAX / 8,
    ensures
        r == round_div_spec(a as int, b as int),
{
    floor_div(2 * a + b, 2 * b)
}

/// What a fixed-point amplitude becomes as a signed 16-bit PCM sample:
/// scaled by `PCM_MAX`, rounded, then clamped to the 16-bit range.
pub open spec fn encode_sample_spec(x: int) -> int {
    let scaled = round_div_spec(x * (PCM_MAX as int), FP_ONE as int);
    if scaled > PCM_MAX as int {
        PCM_MAX as int
    } else if scaled < PCM_MIN as int {
        PCM_MIN as int
    } else {
        scaled
    }
}

/// What a signed 16-bit PCM sample becomes as a fixed-point amplitude:
/// normalized by the largest 16-bit magnitude, rounded.
pub open spec fn decode_sample_spec(e: int) -> int {
    round_div_spec(e * (FP_ONE as int), PCM_MAX as int)
}

/// Encode one fixed-point amplitude as a 16-bit PCM sample.
pub fn encode_sample(x: i32) -> (r: i16)
    ensures
        r == encode_sample_spec(x as int),
{
    proof {
        assert(-0x1_0000_0000_0000int <= x as int * PCM_MAX as int <= 0x1_0000_0000_0000int)
            by (nonlinear_arith)
            requires
                -0x8000_0000 <= x as int <= 0x7fff_ffff,
        ;
    }
    let scaled = round_div(x as i128 * PCM_MAX as i128, FP_ONE as i128);
    if scaled > PCM_MAX as i128 {
        PCM_MAX as i16
    } else if scaled < PCM_MIN as i128 {
        PCM_MIN as i16
    } else {
        scaled as i16
    }
}

/// Decode one 16-bit PCM sample to a fixed-point amplitude.
pub fn decode_sample(e: i16) -> (r: i32)
    ensures
        r == decode_sample_spec(e as int),
{
    proof {
        assert(-0x8000int * 0x10000 <= e as int * FP_ONE as int <= 0x7fff_0000int)
            by (nonlinear_arith)
            requires
                -0x8000 <= e as int <= 0x7fff,
        ;
        assert((-70000int) * (PCM_MAX as int) <= -0x8000int * 0x10000);
        assert(0x7fff_0000int <= 70000int * (PCM_MAX as int));
    }
    let v = round_div(e as i128 * FP_ONE as i128, PCM_MAX as i128);
    proof {
        lemma_round_div_range(e as int * FP_ONE as int, PCM_MAX as int, -70000, 70000);
    }
    v as i32
}

/// Quantization round trip: encoding a full-scale amplitude to 16-bit PCM and
/// decoding it back reproduces the amplitude to within one fixed-point unit,
/// which is finer than the `1/PCM_MAX` tolerance of 16-bit quantization.
pub proof fn lemma_sample_roundtrip(x: int)
    requires
        -(FP_ONE as int) <= x <= FP_ONE as int,
    ensures
        -1 <= decode_sample_spec(encode_sample_spec(x)) - x <= 1,
{
    let s = round_div_spec(x * (PCM_MAX as int), FP_ONE as int);
    lemma_round_div_err(x * (PCM_MAX as int), FP_ONE as int);
    lemma_round_div_range(x * (PCM_MAX as int), FP_ONE as int, -(PCM_MAX as int), PCM_MAX as int);
    assert((-(PCM_MAX as int)) * (FP_ONE as int) <= x * (PCM_MAX as int)) by (nonlinear_arith)
        requires
            -0x10000 <= x,
    ;
    assert(x * (PCM_MAX as int) <= (PCM_MAX as int) * (FP_ONE as int)) by (nonlinear_arith)
        requires
            x <= 0x10000,
    ;
    assert(encode_sample_spec(x) == s);
    let d = round_div_spec(s * (FP_ONE as int), PCM_MAX as int);
    lemma_round_div_err(s * (FP_ONE as int), PCM_MAX as int);
    // 2*(FP_ONE * s - x * PCM_MAX) in (-FP_ONE, FP_ONE]
    // 2*(PCM_MAX * d - s * FP_ONE) in (-PCM_MAX, PCM_MAX]
    // so |2 * PCM_MAX * (d - x)| needs the products aligned:
    assert(PCM_MAX as int * d - x * (PCM_MAX as int) == (PCM_MAX as int * d - s * (FP_ONE as int))
        + (FP_ONE as int * s - x * (PCM_MAX as int))) by {
        assert(s * (FP_ONE as int) == FP_ONE as int * s) by (nonlinear_arith);
    };
    let t = PCM_MAX as int * d - x * (PCM_MAX as int);
    assert(-(FP_ONE as int) - (PCM_MAX as int) < 2 * t <= FP_ONE as int + PCM_MAX as int);
    assert(PCM_MAX as int * d - x * (PCM_MAX as int) == (PCM_MAX as int) * (d - x))
        by (nonlinear_arith);
    if d - x >= 2 {
        assert((PCM_MAX as int) * (d - x) >= 2 * (PCM_MAX as int)) by (nonlinear_arith)
            requires
                d - x >= 2,
        ;
    }
    if d - x <= -2 {
        assert((PCM_MAX as int) * (d - x) <= -2 * (PCM_MAX as int)) by (nonlinear_arith)
            requires
                d - x <= -2,
        ;
    }
}

} // verus!
