//! RIFF/WAVE container: encoding mono 16-bit PCM and decoding PCM back to
//! fixed-point samples.
//!
//! The byte layout is specified by [`wav_header_ok`] and the parser by
//! [`wav_parse`]; the executable encoder and decoder are proved against them.

use vstd::prelude::*;
use vstd::arithmetic::div_mod::{lemma_basic_div, lemma_fundamental_div_mod, lemma_mod_bound};
use crate::error::AppError;
use crate::sample::{
    decode_sample, decode_sample_spec, encode_sample, encode_sample_spec, round_div,
    round_div_spec,
};

verus! {

/// Largest number of samples that fit a WAV file whose sizes are 32-bit.
pub const MAX_WAV_SAMPLES: usize = 0x7fff_ffed;

/// Little-endian 16-bit unsigned value at byte offset `o`.
pub open spec fn u16_le(b: Seq<u8>, o: int) -> int
    recommends
        0 <= o,
        o + 2 <= b.len(),
{
    b[o] + 0x100 * b[o + 1]
}

/// Little-endian 32-bit unsigned value at byte offset `o`.
pub open spec fn u32_le(b: Seq<u8>, o: int) -> int
    recommends
        0 <= o,
        o + 4 <= b.len(),
{
    b[o] + 0x100 * b[o + 1] + 0x1_0000 * b[o + 2] + 0x100_0000 * b[o + 3]
}

/// Little-endian 16-bit signed value at byte offset `o`.
pub open spec fn i16_le(b: Seq<u8>, o: int) -> int
    recommends
        0 <= o,
        o + 2 <= b.len(),
{
    let v = u16_le(b, o);
    if v >= 0x8000 {
        v - 0x1_0000
    } else {
        v
    }
}

/// The fixed 44-byte header of a 16-bit integer PCM WAV holding `n` samples
/// at `rate` Hz with `ch` interleaved channels.
pub open spec fn wav_header_ok(b: Seq<u8>, n: int, rate: int, ch: int) -> bool {
    &&& b.len() >= 44
    &&& b[0] == 0x52u8 && b[1] == 0x49u8 && b[2] == 0x46u8 && b[3] == 0x46u8  // "RIFF"
    &&& u32_le(b, 4) == 36 + 2 * n
    &&& b[8] == 0x57u8 && b[9] == 0x41u8 && b[10] == 0x56u8 && b[11] == 0x45u8  // "WAVE"
    &&& b[12] == 0x66u8 && b[13] == 0x6du8 && b[14] == 0x74u8 && b[15] == 0x20u8  // "fmt "
    &&& u32_le(b, 16) == 16
    &&& u16_le(b, 20) == 1
    &&& u16_le(b, 22) == ch
    &&& u32_le(b, 24) == rate
    &&& u32_le(b, 28) == rate * ch * 2
    &&& u16_le(b, 32) == ch * 2
    &&& u16_le(b, 34) == 16
    &&& b[36] == 0x64u8 && b[37] == 0x61u8 && b[38] == 0x74u8 && b[39] == 0x61u8  // "data"
    &&& u32_le(b, 40) == 2 * n
}

/// `b` is exactly the WAV encoding of the fixed-point samples `s`.
pub open spec fn is_wav_encoding(b: Seq<u8>, s: Seq<i32>, rate: int, ch: int) -> bool {
    &&& b.len() == 44 + 2 * s.len()
    &&& wav_header_ok(b, s.len() as int, rate, ch)
    &&& forall|i: int|
        0 <= i < s.len() ==> i16_le(b, 44 + 2 * i) == encode_sample_spec(s[i] as int)
}

/// Scan the chunk list from offset `o`.  `fmt` is the payload offset of the
/// format chunk if one was already seen.  The result gives the format chunk
/// payload offset, the data payload offset and the data payload length.
pub open spec fn wav_scan(b: Seq<u8>, o: int, fmt: Option<int>) -> Option<(int, int, int)>
    decreases b.len() - o,
{
    if o < 0 || o + 8 > b.len() {
        None
    } else {
        let size = u32_le(b, o + 4);
        if o + 8 + size > b.len() {
            None
        } else if b[o] == 0x64u8 && b[o + 1] == 0x61u8 && b[o + 2] == 0x74u8 && b[o + 3]
            == 0x61u8 {
            // "data"
            match fmt {
                Some(f) => Some((f, o + 8, size)),
                None => None,
            }
        } else {
            let next = o + 8 + size + (if size % 2 == 1 { 1int } else { 0int });
            if next > b.len() {
                None
            } else if b[o] == 0x66u8 && b[o + 1] == 0x6du8 && b[o + 2] == 0x74u8 && b[o + 3]
                == 0x20u8 {
                // "fmt "
                if size >= 16 {
                    wav_scan(b, next, Some(o + 8))
                } else {
                    None
                }
            } else {
                wav_scan(b, next, fmt)
            }
        }
    }
}

/// Parse a RIFF/WAVE file: on success, the audio format code, channel count,
/// sample rate, bits per sample, data payload offset and data payload length.
pub open spec fn wav_parse(b: Seq<u8>) -> Option<(int, int, int, int, int, int)> {
    if b.len() >= 12 && b[0] == 0x52u8 && b[1] == 0x49u8 && b[2] == 0x46u8 && b[3] == 0x46u8
        && b[8] == 0x57u8 && b[9] == 0x41u8 && b[10] == 0x56u8 && b[11] == 0x45u8 {
        match wav_scan(b, 12, None) {
            Some((f, doff, dlen)) => Some(
                (u16_le(b, f), u16_le(b, f + 2), u32_le(b, f + 4), u16_le(b, f + 14), doff, dlen),
            ),
            None => None,
        }
    } else {
        None
    }
}

/// Append a 16-bit value, little endian.
fn push_u16_le(v: &mut Vec<u8>, x: u16)
    ensures
        final(v)@.len() == old(v)@.len() + 2,
        forall|i: int| 0 <= i < old(v)@.len() ==> final(v)@[i] == old(v)@[i],
        u16_le(final(v)@, old(v)@.len() as int) == x,
{
    v.push((x % 0x100) as u8);
    v.push((x / 0x100) as u8);
    proof {
        lemma_fundamental_div_mod(x as int, 0x100);
        lemma_mod_bound(x as int, 0x100);
    }
}

/// Append a 32-bit value, little endian.
fn push_u32_le(v: &mut Vec<u8>, x: u32)
    ensures
        final(v)@.len() == old(v)@.len() + 4,
        forall|i: int| 0 <= i < old(v)@.len() ==> final(v)@[i] == old(v)@[i],
        u32_le(final(v)@, old(v)@.len() as int) == x,
{
    v.push((x % 0x100) as u8);
    v.push((x / 0x100 % 0x100) as u8);
    v.push((x / 0x1_0000 % 0x100) as u8);
    v.push((x / 0x100_0000) as u8);
    proof {
        lemma_fundamental_div_mod(x as int, 0x100);
        lemma_mod_bound(x as int, 0x100);
        lemma_fundamental_div_mod(x as int / 0x100, 0x100);
        lemma_mod_bound(x as int / 0x100, 0x100);
        lemma_fundamental_div_mod(x as int / 0x1_0000, 0x100);
        lemma_mod_bound(x as int / 0x1_0000, 0x100);
        assert(x as int / 0x100 / 0x100 == x as int / 0x1_0000) by (nonlinear_arith);
        assert(x as int / 0x1_0000 / 0x100 == x as int / 0x100_0000) by (nonlinear_arith);
    }
}

/// Append a 16-bit signed value, little endian.
fn push_i16_le(v: &mut Vec<u8>, x: i16)
    ensures
        final(v)@.len() == old(v)@.len() + 2,
        forall|i: int| 0 <= i < old(v)@.len() ==> final(v)@[i] == old(v)@[i],
        i16_le(final(v)@, old(v)@.len() as int) == x,
{
    let u: u16 = if x >= 0 {
        x as u16
    } else {
        (x as i32 + 0x1_0000) as u16
    };
    push_u16_le(v, u);
}

/// Encode fixed-point samples as a 16-bit integer PCM WAV file.
pub fn encode_wav(samples: &Vec<i32>, sample_rate: u32, channels: u16) -> (r: Vec<u8>)
    requires
        samples@.len() <= MAX_WAV_SAMPLES,
        sample_rate as int * channels as int * 2 <= u32::MAX,
        channels as int * 2 <= u16::MAX,
    ensures
        is_wav_encoding(r@, samples@, sample_rate as int, channels as int),
{
    let n = samples.len();
    let data_len: u32 = (n as u32) * 2;
    let mut b: Vec<u8> = Vec::new();
    b.push(0x52);
    b.push(0x49);
    b.push(0x46);
    b.push(0x46);
    push_u32_le(&mut b, 36 + data_len);
    b.push(0x57);
    b.push(0x41);
    b.push(0x56);
    b.push(0x45);
    b.push(0x66);
    b.push(0x6d);
    b.push(0x74);
    b.push(0x20);
    push_u32_le(&mut b, 16);
    push_u16_le(&mut b, 1);
    push_u16_le(&mut b, channels);
    push_u32_le(&mut b, sample_rate);
    push_u32_le(&mut b, sample_rate * (channels as u32) * 2);
    push_u16_le(&mut b, (channels as u32 * 2) as u16);
    push_u16_le(&mut b, 16);
    b.push(0x64);
    b.push(0x61);
    b.push(0x74);
    b.push(0x61);
    push_u32_le(&mut b, data_len);
    let ghost header = b@;
    assert(wav_header_ok(b@, samples@.len() as int, sample_rate as int, channels as int));
    let mut i: usize = 0;
    while i < n
        invariant
            n == samples@.len(),
            0 <= i <= n,
            b@.len() == 44 + 2 * i,
            forall|k: int| 0 <= k < 44 ==> b@[k] == header[k],
            header.len() == 44,
            wav_header_ok(header, samples@.len() as int, sample_rate as int, channels as int),
            forall|m: int|
                0 <= m < i ==> i16_le(b@, 44 + 2 * m) == encode_sample_spec(samples@[m] as int),
        decreases n - i,
    {
        let e = encode_sample(samples[i]);
        push_i16_le(&mut b, e);
        i = i + 1;
    }
    proof {
        assert(wav_header_ok(b@, samples@.len() as int, sample_rate as int, channels as int));
    }
    b
}

/// Read a 16-bit little-endian value.
fn read_u16_le(b: &Vec<u8>, o: usize) -> (r: u16)
    requires
        o + 2 <= b@.len(),
    ensures
        r == u16_le(b@, o as int),
{
    proof {
        vstd::std_specs::vec::axiom_spec_len(b);
    }
    b[o] as u16 + 0x100 * (b[o + 1] as u16)
}

/// Read a 32-bit little-endian value.
fn read_u32_le(b: &Vec<u8>, o: usize) -> (r: u32)
    requires
        o + 4 <= b@.len(),
    ensures
        r == u32_le(b@, o as int),
{
    proof {
        vstd::std_specs::vec::axiom_spec_len(b);
    }
    b[o] as u32 + 0x100 * (b[o + 1] as u32) + 0x1_0000 * (b[o + 2] as u32) + 0x100_0000 * (b[o
        + 3] as u32)
}

/// Read a 16-bit little-endian signed value.
fn read_i16_le(b: &Vec<u8>, o: usize) -> (r: i16)
    requires
        o + 2 <= b@.len(),
    ensures
        r == i16_le(b@, o as int),
{
    let u = read_u16_le(b, o);
    if u < 0x8000 {
        u as i16
    } else {
        (u as i32 - 0x1_0000) as i16
    }
}

/// Two to the `k`th power.
pub open spec fn pow2(k: nat) -> int
    decreases k,
{
    if k == 0 {
        1
    } else {
        2 * pow2((k - 1) as nat)
    }
}

/// Powers of two are positive and increase with the exponent.
proof fn lemma_pow2_monotonic(a: nat, b: nat)
    requires
        a <= b,
    ensures
        1 <= pow2(a) <= pow2(b),
    decreases b,
{
    if b > 0 {
        if a == 0 {
            lemma_pow2_monotonic(0, (b - 1) as nat);
        } else {
            lemma_pow2_monotonic((a - 1) as nat, (b - 1) as nat);
        }
    }
}

/// Exact power of two as a machine integer, for exponents up to 24.
fn pow2_u64(k: u32) -> (r: u64)
    requires
        k <= 24,
    ensures
        r == pow2(k as nat),
        1 <= r <= 0x100_0000,
{
    proof {
        reveal_with_fuel(pow2, 26);
        assert(pow2(24) == 0x100_0000);
    }
    let mut r: u64 = 1;
    let mut i: u32 = 0;
    while i < k
        invariant
            0 <= i <= k <= 24,
            r == pow2(i as nat),
            r <= 0x100_0000,
        decreases k - i,
    {
        proof {
            reveal_with_fuel(pow2, 26);
            assert(pow2(24) == 0x100_0000);
            lemma_pow2_monotonic((i + 1) as nat, 24);
        }
        r = r * 2;
        i = i + 1;
    }
    r
}

/// The fixed-point amplitude stored by one IEEE 754 single-precision sample,
/// given its bit pattern: the float's value times `FP_ONE`, rounded to
/// nearest, with subnormals rounding to zero and values beyond the
/// fixed-point range (infinities and NaN among them) saturating.
pub open spec fn f32_fixed_spec(bits: int) -> int {
    let sign = bits / 0x8000_0000;
    let e = (bits / 0x80_0000) % 0x100;
    let m = bits % 0x80_0000;
    let mag = if e == 0 {
        0
    } else if e >= 158 {
        i32::MAX as int
    } else if e >= 134 {
        let v = (m + 0x80_0000) * pow2((e - 134) as nat);
        if v > i32::MAX as int {
            i32::MAX as int
        } else {
            v
        }
    } else {
        round_div_spec(m + 0x80_0000, pow2((134 - e) as nat))
    };
    if sign == 1 {
        -mag
    } else {
        mag
    }
}

/// Decode one IEEE 754 single-precision bit pattern to a fixed-point
/// amplitude.
pub fn f32_bits_to_fixed(bits: u32) -> (r: i32)
    ensures
        r == f32_fixed_spec(bits as int),
{
    let sign = bits / 0x8000_0000;
    let e = (bits / 0x80_0000) % 0x100;
    let m = bits % 0x80_0000;
    let mag: i32 = if e == 0 {
        0
    } else if e >= 158 {
        i32::MAX
    } else if e >= 134 {
        let mult = pow2_u64(e - 134);
        proof {
            assert((m as int + 0x80_0000) * (mult as int) <= 0x100_0000int * 0x100_0000)
                by (nonlinear_arith)
                requires
                    m as int + 0x80_0000 <= 0x100_0000,
                    0 <= mult as int <= 0x100_0000,
            ;
            assert((m as int + 0x80_0000) * (mult as int) >= 0) by (nonlinear_arith)
                requires
                    m as int + 0x80_0000 >= 0,
                    mult as int >= 0,
            ;
        }
        let v = (m as u64 + 0x80_0000) * mult;
        if v > i32::MAX as u64 {
            i32::MAX
        } else {
            v as i32
        }
    } else {
        let shift = 134 - e;
        if shift >= 25 {
            proof {
                lemma_pow2_monotonic(25, shift as nat);
                reveal_with_fuel(pow2, 26);
                assert(pow2(25) == 0x200_0000);
                let b = pow2(shift as nat);
                lemma_basic_div(2 * (m as int + 0x80_0000) + b, 2 * b);
            }
            0
        } else {
            let div = pow2_u64(shift);
            let q = round_div(m as i128 + 0x80_0000, div as i128);
            proof {
                crate::sample::lemma_round_div_range(
                    m as int + 0x80_0000,
                    div as int,
                    0,
                    0x100_0000,
                );
                assert((m as int + 0x80_0000) <= 0x100_0000 * (div as int)) by (nonlinear_arith)
                    requires
                        m as int + 0x80_0000 <= 0x100_0000,
                        div as int >= 1,
                ;
            }
            q as i32
        }
    };
    if sign == 1 {
        -mag
    } else {
        mag
    }
}

/// Decode a WAV file to fixed-point samples.  16-bit integer samples are
/// normalized by the largest 16-bit magnitude; 32-bit float samples carry
/// their value in fixed point directly.  A file the parser rejects fails
/// with `Invalid WAV`; a parsed file of another sample format fails with
/// `Unsupported WAV sample format`.
pub fn decode_wav_to_samples(wav_bytes: &Vec<u8>) -> (r: Result<Vec<i32>, AppError>)
    ensures
        match r {
            Ok(s) => {
                &&& wav_parse(wav_bytes@) matches Some((f, _ch, _rate, bits, doff, dlen)) && {
                    ||| {
                        &&& f == 1 && bits == 16
                        &&& s@.len() == dlen / 2
                        &&& forall|i: int|
                            0 <= i < s@.len() ==> s@[i] == decode_sample_spec(
                                i16_le(wav_bytes@, doff + 2 * i),
                            )
                    }
                    ||| {
                        &&& f == 3 && bits == 32
                        &&& s@.len() == dlen / 4
                        &&& forall|i: int|
                            0 <= i < s@.len() ==> s@[i] == f32_fixed_spec(
                                u32_le(wav_bytes@, doff + 4 * i),
                            )
                    }
                }
            },
            Err(e) => {
                &&& e matches AppError::Whisper(m) && match wav_parse(wav_bytes@) {
                    Some((f, _ch, _rate, bits, _doff, _dlen)) => !(f == 1 && bits == 16) && !(f
                        == 3 && bits == 32) && m@ == "Unsupported WAV sample format"@,
                    None => m@ == "Invalid WAV"@,
                }
            },
        },
{
    let n = wav_bytes.len();
    if n < 12 {
        return Err(AppError::Whisper(String::from_str("Invalid WAV")));
    }
    if !(wav_bytes[0] == 0x52 && wav_bytes[1] == 0x49 && wav_bytes[2] == 0x46 && wav_bytes[3]
        == 0x46 && wav_bytes[8] == 0x57 && wav_bytes[9] == 0x41 && wav_bytes[10] == 0x56
        && wav_bytes[11] == 0x45) {
        return Err(AppError::Whisper(String::from_str("Invalid WAV")));
    }
    let mut o: usize = 12;
    let mut has_fmt: bool = false;
    let mut fmt_off: usize = 0;
    let mut f_off: usize = 0;
    let mut d_off: usize = 0;
    let mut d_len: usize = 0;
    loop
        invariant
            n == wav_bytes@.len(),
            12 <= o <= n,
            has_fmt ==> fmt_off + 16 <= n,
            wav_scan(wav_bytes@, 12, None) == wav_scan(
                wav_bytes@,
                o as int,
                if has_fmt {
                    Some(fmt_off as int)
                } else {
                    None
                },
            ),
        ensures
            wav_scan(wav_bytes@, 12, None) == Some(
                (f_off as int, d_off as int, d_len as int),
            ),
            f_off + 16 <= n,
            d_off + d_len <= n,
        decreases n - o,
    {
        if n - o < 8 {
            return Err(AppError::Whisper(String::from_str("Invalid WAV")));
        }
        let size32 = read_u32_le(wav_bytes, o + 4);
        let size = size32 as usize;
        if size > n - (o + 8) {
            return Err(AppError::Whisper(String::from_str("Invalid WAV")));
        }
        if wav_bytes[o] == 0x64 && wav_bytes[o + 1] == 0x61 && wav_bytes[o + 2] == 0x74
            && wav_bytes[o + 3] == 0x61 {
            if has_fmt {
                f_off = fmt_off;
                d_off = o + 8;
                d_len = size;
                break;
            } else {
                return Err(AppError::Whisper(String::from_str("Invalid WAV")));
            }
        }
        let base = o + 8 + size;
        let next = if size % 2 == 1 {
            if base == n {
                return Err(AppError::Whisper(String::from_str("Invalid WAV")));
            }
            base + 1
        } else {
            base
        };
        if wav_bytes[o] == 0x66 && wav_bytes[o + 1] == 0x6d && wav_bytes[o + 2] == 0x74
            && wav_bytes[o + 3] == 0x20 {
            if size < 16 {
                return Err(AppError::Whisper(String::from_str("Invalid WAV")));
            }
            has_fmt = true;
            fmt_off = o + 8;
        }
        o = next;
    }
    let format = read_u16_le(wav_bytes, f_off);
    let bits = read_u16_le(wav_bytes, f_off + 14);
    if format == 1 && bits == 16 {
        let count = d_len / 2;
        let mut out: Vec<i32> = Vec::new();
        let mut i: usize = 0;
        proof {
            lemma_fundamental_div_mod(d_len as int, 2);
            lemma_mod_bound(d_len as int, 2);
        }
        while i < count
            invariant
                n == wav_bytes@.len(),
                count == d_len as int / 2,
                2 * count <= d_len,
                d_off + d_len <= n,
                0 <= i <= count,
                out@.len() == i,
                forall|m: int|
                    0 <= m < i ==> out@[m] == decode_sample_spec(
                        i16_le(wav_bytes@, d_off as int + 2 * m),
                    ),
            decreases count - i,
        {
            let e = read_i16_le(wav_bytes, d_off + 2 * i);
            out.push(decode_sample(e));
            i = i + 1;
        }
        Ok(out)
    } else if format == 3 && bits == 32 {
        let count = d_len / 4;
        let mut out: Vec<i32> = Vec::new();
        let mut i: usize = 0;
        proof {
            lemma_fundamental_div_mod(d_len as int, 4);
            lemma_mod_bound(d_len as int, 4);
        }
        while i < count
            invariant
                n == wav_bytes@.len(),
                count == d_len as int / 4,
                4 * count <= d_len,
                d_off + d_len <= n,
                0 <= i <= count,
                out@.len() == i,
                forall|m: int|
                    0 <= m < i ==> out@[m] == f32_fixed_spec(
                        u32_le(wav_bytes@, d_off as int + 4 * m),
                    ),
            decreases count - i,
        {
            let b = read_u32_le(wav_bytes, d_off + 4 * i);
            out.push(f32_bits_to_fixed(b));
            i = i + 1;
        }
        Ok(out)
    } else {
        Err(AppError::Whisper(String::from_str("Unsupported WAV sample format")))
    }
}

/// A WAV encoding parses back to exactly its header fields and sample bytes.
pub proof fn lemma_wav_parse_of_encoding(b: Seq<u8>, s: Seq<i32>, rate: int, ch: int)
    requires
        is_wav_encoding(b, s, rate, ch),
    ensures
        wav_parse(b) == Some((1int, ch, rate, 16int, 44int, 2 * s.len() as int)),
{
    reveal_with_fuel(wav_scan, 3);
    assert(u32_le(b, 16) == 16);
    assert(16int % 2 == 0);
    assert(wav_scan(b, 12, None) == wav_scan(b, 36, Some(20)));
    assert(u32_le(b, 40) == 2 * s.len());
    assert(wav_scan(b, 36, Some(20)) == Some((20int, 44int, 2 * s.len() as int)));
}

/// Quantization round trip at file level: encoding samples to a 16-bit PCM
/// WAV and decoding the file reproduces every full-scale sample to within one
/// fixed-point unit, finer than the `1/PCM_MAX` tolerance of 16-bit
/// quantization.
pub proof fn lemma_wav_roundtrip(b: Seq<u8>, s: Seq<i32>, rate: int, ch: int)
    requires
        is_wav_encoding(b, s, rate, ch),
        forall|i: int|
            0 <= i < s.len() ==> -(crate::sample::FP_ONE as int) <= #[trigger] s[i]
                <= crate::sample::FP_ONE as int,
    ensures
        wav_parse(b) == Some((1int, ch, rate, 16int, 44int, 2 * s.len() as int)),
        forall|i: int|
            0 <= i < s.len() ==> -1 <= decode_sample_spec(i16_le(b, 44 + 2 * i)) - #[trigger] s[i]
                <= 1,
{
    lemma_wav_parse_of_encoding(b, s, rate, ch);
    assert forall|i: int| 0 <= i < s.len() implies -1 <= decode_sample_spec(
        i16_le(b, 44 + 2 * i),
    ) - #[trigger] s[i] <= 1 by {
        crate::sample::lemma_sample_roundtrip(s[i] as int);
    }
}

} // verus!
