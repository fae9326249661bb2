//! Pure signal processing: channel downmix and linear resampling.
//!
//! Samples are fixed-point amplitudes as described in [`crate::sample`].

use vstd::prelude::*;
use vstd::arithmetic::div_mod::{
    lemma_div_nonincreasing, lemma_div_pos_is_pos, lemma_fundamental_div_mod, lemma_mod_bound,
};
use crate::sample::{round_div, round_div_spec, lemma_round_div_err, lemma_round_div_range};

verus! {

/// Sum of a sequence of samples, as a mathematical integer.
pub open spec fn frame_sum(s: Seq<i32>) -> int
    decreases s.len(),
{
    if s.len() == 0 {
        0
    } else {
        frame_sum(s.drop_last()) + s.last()
    }
}

/// Rounded division returns a multiple of the divisor exactly.
pub proof fn lemma_round_div_exact(a: int, b: int)
    requires
        b >= 1,
    ensures
        round_div_spec(a * b, b) == a,
{
    let q = round_div_spec(a * b, b);
    lemma_round_div_err(a * b, b);
    assert(b * q - a * b == b * (q - a)) by (nonlinear_arith);
    if q - a >= 1 {
        assert(b * (q - a) >= b) by (nonlinear_arith)
            requires
                b >= 1,
                q - a >= 1,
        ;
    }
    if q - a <= -1 {
        assert(b * (q - a) <= -b) by (nonlinear_arith)
            requires
                b >= 1,
                q - a <= -1,
        ;
    }
}

/// The `i`th sample of the downmix of `s` to one channel: the rounded average
/// of the `i`th group of `ch` consecutive samples.
pub open spec fn mono_sample_spec(s: Seq<i32>, ch: int, i: int) -> int
    recommends
        ch >= 1,
        0 <= i,
        i * ch + ch <= s.len(),
{
    round_div_spec(frame_sum(s.subrange(i * ch, i * ch + ch)), ch)
}

/// The downmix of `s` to one channel, as a sequence.
pub open spec fn downmix_seq(s: Seq<i32>, ch: int) -> Seq<i32>
    recommends
        ch >= 1,
{
    Seq::new((s.len() as int / ch) as nat, |i: int| mono_sample_spec(s, ch, i) as i32)
}

/// Downmix interleaved `channels`-channel audio to mono by averaging each
/// group of `channels` consecutive samples; a trailing partial group is
/// dropped.  Mono input comes back unchanged.
pub fn to_mono(samples: &Vec<i32>, channels: u16) -> (r: Vec<i32>)
    requires
        channels >= 1,
    ensures
        r@.len() == samples@.len() as int / channels as int,
        forall|i: int|
            0 <= i < r@.len() ==> r@[i] == mono_sample_spec(samples@, channels as int, i),
        r@ == downmix_seq(samples@, channels as int),
        channels == 1 ==> r@ == samples@,
{
    let ch = channels as usize;
    let n = samples.len() / ch;
    let mut out: Vec<i32> = Vec::new();
    proof {
        lemma_fundamental_div_mod(samples@.len() as int, ch as int);
        lemma_mod_bound(samples@.len() as int, ch as int);
        assert(ch as int * (samples@.len() as int / ch as int) == (samples@.len() as int
            / ch as int) * ch as int) by (nonlinear_arith);
    }
    let mut i: usize = 0;
    while i < n
        invariant
            1 <= ch <= u16::MAX,
            samples@.len() <= usize::MAX,
            n == samples@.len() as int / ch as int,
            n * ch <= samples@.len(),
            0 <= i <= n,
            out@.len() == i,
            forall|m: int| 0 <= m < i ==> out@[m] == mono_sample_spec(samples@, ch as int, m),
        decreases n - i,
    {
        proof {
            assert(i * ch + ch <= n * ch) by (nonlinear_arith)
                requires
                    i + 1 <= n,
                    ch >= 1,
            ;
            assert(i * ch >= 0) by (nonlinear_arith)
                requires
                    i >= 0,
                    ch >= 1,
            ;
        }
        let base = i * ch;
        let mut sum: i64 = 0;
        let mut j: usize = 0;
        while j < ch
            invariant
                1 <= ch <= u16::MAX,
                samples@.len() <= usize::MAX,
                0 <= j <= ch,
                base == i * ch,
                base + ch <= samples@.len(),
                sum == frame_sum(samples@.subrange(base as int, base as int + j as int)),
                j * (i32::MIN as int) <= sum <= j * (i32::MAX as int),
            decreases ch - j,
        {
            let ghost pre = samples@.subrange(base as int, base as int + j as int);
            let x = samples[base + j];
            proof {
                let post = samples@.subrange(base as int, base as int + j as int + 1);
                assert(post.drop_last() =~= pre);
                assert(post.last() == samples@[base as int + j as int]);
                assert((j + 1) * (i32::MIN as int) == j * (i32::MIN as int) + i32::MIN as int)
                    by (nonlinear_arith);
                assert((j + 1) * (i32::MAX as int) == j * (i32::MAX as int) + i32::MAX as int)
                    by (nonlinear_arith);
            }
            sum = sum + x as i64;
            j = j + 1;
        }
        let ghost frame = samples@.subrange(base as int, base as int + ch as int);
        let avg = round_div(sum as i128, ch as i128);
        proof {
            assert((i32::MIN as int) * (ch as int) <= ch as int * (i32::MIN as int))
                by (nonlinear_arith);
            assert(ch as int * (i32::MAX as int) <= (i32::MAX as int) * (ch as int))
                by (nonlinear_arith);
            lemma_round_div_range(sum as int, ch as int, i32::MIN as int, i32::MAX as int);
        }
        out.push(avg as i32);
        i = i + 1;
    }
    proof {
        if ch == 1 {
            lemma_fundamental_div_mod(samples@.len() as int, ch as int);
            lemma_mod_bound(samples@.len() as int, ch as int);
            assert(ch as int * (samples@.len() as int / ch as int) == (samples@.len() as int
                / ch as int)) by (nonlinear_arith)
                requires
                    ch as int == 1,
            ;
            assert(out@.len() == samples@.len());
            assert forall|m: int| 0 <= m < out@.len() implies out@[m] == samples@[m] by {
                let f = samples@.subrange(m, m + 1);
                assert(f.len() == 1);
                assert(f.last() == samples@[m]);
                assert(f.drop_last() =~= Seq::<i32>::empty());
                assert(frame_sum(Seq::<i32>::empty()) == 0);
                assert(frame_sum(f) == frame_sum(f.drop_last()) + f.last());
                assert(frame_sum(f) == samples@[m]);
                assert(mono_sample_spec(samples@, 1, m) == round_div_spec(samples@[m] as int, 1));
                lemma_round_div_exact(samples@[m] as int, 1);
                assert(samples@[m] as int * 1 == samples@[m] as int);
            }
            assert(out@ =~= samples@);
        }
        assert forall|m: int| 0 <= m < out@.len() implies out@[m] == downmix_seq(
            samples@,
            ch as int,
        )[m] by {
            assert((out@[m] as int) as i32 == out@[m]);
        }
        assert(out@ =~= downmix_seq(samples@, ch as int));
    }
    out
}

/// The `i`th output sample when resampling `s` from `from` Hz to `to` Hz by
/// linear interpolation: the source position is `i * from / to`; the sample is
/// interpolated between the two straddling source samples, taken directly at
/// the final boundary, and zero if the position is past the input.
pub open spec fn resample_at(s: Seq<i32>, from: int, to: int, i: int) -> int
    recommends
        from >= 1,
        to >= 1,
        0 <= i,
{
    let p = i * from;
    let k = p / to;
    let rem = p % to;
    if k + 1 < s.len() {
        round_div_spec(s[k] * (to - rem) + s[k + 1] * rem, to)
    } else if k < s.len() {
        s[k] as int
    } else {
        0
    }
}

/// The resampling of `s` from `from` Hz to `to` Hz, as a sequence.
pub open spec fn resample_seq(s: Seq<i32>, from: int, to: int) -> Seq<i32>
    recommends
        from >= 1,
        to >= 1,
{
    Seq::new((s.len() as int * to / from) as nat, |i: int| resample_at(s, from, to, i) as i32)
}

/// Resample by linear interpolation.  The output has `len * to / from`
/// samples; equal rates reproduce the input exactly.
pub fn resample(samples: &Vec<i32>, from_rate: u32, to_rate: u32) -> (r: Vec<i32>)
    requires
        from_rate >= 1,
        to_rate >= 1,
        samples@.len() * to_rate as int <= usize::MAX as int,
    ensures
        r@.len() == samples@.len() as int * to_rate as int / from_rate as int,
        forall|i: int|
            0 <= i < r@.len() ==> r@[i] == resample_at(
                samples@,
                from_rate as int,
                to_rate as int,
                i,
            ),
        from_rate == to_rate ==> r@ == samples@,
{
    let len = samples.len();
    let out_len_wide = (len as u128) * (to_rate as u128) / (from_rate as u128);
    proof {
        lemma_div_nonincreasing(len as int * to_rate as int, from_rate as int);
        lemma_div_pos_is_pos(len as int * to_rate as int, from_rate as int);
        assert(len as int * to_rate as int >= 0) by (nonlinear_arith)
            requires
                len as int >= 0,
                to_rate as int >= 1,
        ;
    }
    let out_len = out_len_wide as usize;
    let mut out: Vec<i32> = Vec::new();
    let mut i: usize = 0;
    while i < out_len
        invariant
            from_rate >= 1,
            to_rate >= 1,
            len == samples@.len(),
            out_len == samples@.len() as int * to_rate as int / from_rate as int,
            0 <= i <= out_len,
            out@.len() == i,
            forall|m: int|
                0 <= m < i ==> out@[m] == resample_at(
                    samples@,
                    from_rate as int,
                    to_rate as int,
                    m,
                ),
        decreases out_len - i,
    {
        proof {
            assert(i as int * (from_rate as int) <= 0xffff_ffff_ffff_ffffint * 0xffff_ffff)
                by (nonlinear_arith)
                requires
                    0 <= i as int <= 0xffff_ffff_ffff_ffff,
                    0 <= (from_rate as int) <= 0xffff_ffff,
            ;
            assert(i as int * (from_rate as int) >= 0) by (nonlinear_arith)
                requires
                    0 <= i as int,
                    0 <= (from_rate as int),
            ;
        }
        let p = (i as u128) * (from_rate as u128);
        let k_wide = p / (to_rate as u128);
        let rem = p % (to_rate as u128);
        proof {
            lemma_fundamental_div_mod(p as int, to_rate as int);
            lemma_mod_bound(p as int, to_rate as int);
            lemma_div_pos_is_pos(p as int, to_rate as int);
            lemma_div_nonincreasing(p as int, to_rate as int);
        }
        let v: i32 = if k_wide + 1 < len as u128 {
            let k = k_wide as usize;
            let a = samples[k];
            let b = samples[k + 1];
            let w1 = (to_rate as u128 - rem) as i128;
            let w0 = rem as i128;
            proof {
                let lo: int = if a <= b { a as int } else { b as int };
                let hi: int = if a <= b { b as int } else { a as int };
                assert(lo * (to_rate as int) <= a as int * (to_rate as int - rem as int) + b as int
                    * (rem as int) <= hi * (to_rate as int)) by (nonlinear_arith)
                    requires
                        lo <= a as int <= hi,
                        lo <= b as int <= hi,
                        0 <= rem as int,
                        (rem as int) < (to_rate as int),
                ;
                assert(-0x8000_0000int * 0x1_0000_0000 <= lo * (to_rate as int))
                    by (nonlinear_arith)
                    requires
                        -0x8000_0000 <= lo,
                        1 <= to_rate as int <= 0x1_0000_0000,
                ;
                assert(hi * (to_rate as int) <= 0x8000_0000int * 0x1_0000_0000)
                    by (nonlinear_arith)
                    requires
                        hi <= 0x8000_0000,
                        1 <= to_rate as int <= 0x1_0000_0000,
                ;
            }
            proof {
                assert(-0x8000_0000int * 0x1_0000_0000 <= a as int * (w1 as int)
                    <= 0x8000_0000int * 0x1_0000_0000) by (nonlinear_arith)
                    requires
                        -0x8000_0000 <= a as int <= 0x7fff_ffff,
                        0 <= (w1 as int) <= 0x1_0000_0000,
                ;
                assert(-0x8000_0000int * 0x1_0000_0000 <= b as int * (w0 as int)
                    <= 0x8000_0000int * 0x1_0000_0000) by (nonlinear_arith)
                    requires
                        -0x8000_0000 <= b as int <= 0x7fff_ffff,
                        0 <= (w0 as int) <= 0x1_0000_0000,
                ;
            }
            let num = a as i128 * w1 + b as i128 * w0;
            let q = round_div(num, to_rate as i128);
            proof {
                let lo: int = if a <= b { a as int } else { b as int };
                let hi: int = if a <= b { b as int } else { a as int };
                lemma_round_div_range(num as int, to_rate as int, lo, hi);
            }
            q as i32
        } else if k_wide < len as u128 {
            samples[k_wide as usize]
        } else {
            0
        };
        out.push(v);
        i = i + 1;
    }
    proof {
        if from_rate == to_rate {
            let r = from_rate as int;
            assert(samples@.len() as int * r >= 0) by (nonlinear_arith)
                requires
                    samples@.len() as int >= 0,
                    r >= 1,
            ;
            lemma_fundamental_div_mod(samples@.len() as int * r, r);
            lemma_mod_bound(samples@.len() as int * r, r);
            assert(samples@.len() as int * r / r == samples@.len()) by {
                let q = samples@.len() as int * r / r;
                let m = samples@.len() as int * r % r;
                assert(r * q + m == samples@.len() as int * r);
                assert(r * q == r * q + 0);
                lemma_div_exact_multiple(samples@.len() as int, r, q, m);
            }
            assert forall|m: int| 0 <= m < out@.len() implies out@[m] == samples@[m] by {
                lemma_resample_identity_at(samples@, r, m);
            }
            assert(out@ =~= samples@);
        }
        assert forall|m: int| 0 <= m < out@.len() implies out@[m] == resample_seq(
            samples@,
            from_rate as int,
            to_rate as int,
        )[m] by {
            assert((out@[m] as int) as i32 == out@[m]);
        }
        assert(out@ =~= resample_seq(samples@, from_rate as int, to_rate as int));
    }
    out
}

/// If `n * r == r * q + m` with `0 <= m < r`, then `q == n` and `m == 0`.
proof fn lemma_div_exact_multiple(n: int, r: int, q: int, m: int)
    requires
        r >= 1,
        0 <= m < r,
        n * r == r * q + m,
    ensures
        q == n,
        m == 0,
{
    assert(n * r - r * q == r * (n - q)) by (nonlinear_arith);
    assert(r * (n - q) == m);
    if n - q >= 1 {
        assert(r * (n - q) >= r) by (nonlinear_arith)
            requires
                r >= 1,
                n - q >= 1,
        ;
    }
    if n - q <= -1 {
        assert(r * (n - q) <= -r) by (nonlinear_arith)
            requires
                r >= 1,
                n - q <= -1,
        ;
    }
    assert(m == 0) by (nonlinear_arith)
        requires
            n - q == 0,
            r * (n - q) == m,
    ;
}

/// At equal rates every output position falls exactly on a source sample.
proof fn lemma_resample_identity_at(s: Seq<i32>, r: int, i: int)
    requires
        r >= 1,
        0 <= i < s.len(),
    ensures
        resample_at(s, r, r, i) == s[i],
{
    let p = i * r;
    lemma_fundamental_div_mod(p, r);
    lemma_mod_bound(p, r);
    lemma_div_exact_multiple(i, r, p / r, p % r);
    assert(p / r == i && p % r == 0);
    if i + 1 < s.len() {
        assert(s[i] as int * (r - 0) + s[i + 1] as int * 0 == s[i] as int * r)
            by (nonlinear_arith);
        lemma_round_div_exact(s[i] as int, r);
    }
}

} // verus!
