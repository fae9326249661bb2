use dictation_core::sample::{decode_sample, encode_sample, FP_ONE};
use dictation_core::signal::{resample, to_mono};
use dictation_core::wav::{decode_wav_to_samples, encode_wav};

#[test]
fn downmix_identity_mono() {
    let samples = vec![5, -3, 7, 0, FP_ONE, -FP_ONE];
    let out = to_mono(&samples, 1);
    assert_eq!(out, samples);
}

#[test]
fn downmix_averages_pairs() {
    let samples = vec![1, 3, 2, 4];
    let out = to_mono(&samples, 2);
    assert_eq!(out, vec![2, 3]);
}

#[test]
fn downmix_drops_trailing_partial_frame() {
    let samples = vec![1, 3, 2];
    let out = to_mono(&samples, 2);
    assert_eq!(out, vec![2]);
}

#[test]
fn downmix_rounds_to_nearest() {
    // (1 + 2) / 2 = 1.5 rounds up to 2.
    let out = to_mono(&vec![1, 2], 2);
    assert_eq!(out, vec![2]);
    // (-1 + -2) / 2 = -1.5 rounds towards positive infinity to -1.
    let out = to_mono(&vec![-1, -2], 2);
    assert_eq!(out, vec![-1]);
}

#[test]
fn downmix_three_channels() {
    let samples = vec![3, 6, 9, 30, 60, 90];
    let out = to_mono(&samples, 3);
    assert_eq!(out, vec![6, 60]);
}

#[test]
fn resample_identity_equal_rates() {
    let samples = vec![0, 2, 4, 6];
    assert_eq!(resample(&samples, 44100, 44100), samples);
    assert_eq!(resample(&samples, 7, 7), samples);
}

#[test]
fn resample_halving_uses_linear_interpolation() {
    let samples = vec![0, 2, 4, 6];
    let out = resample(&samples, 2, 1);
    assert_eq!(out.len(), 2);
    // Source positions 0 and 2 fall exactly on input samples.
    assert_eq!(out, vec![0, 4]);
}

#[test]
fn resample_doubling_interpolates_midpoints() {
    let samples = vec![0, 100];
    let out = resample(&samples, 1, 2);
    // Positions 0, 0.5, 1, 1.5: the tail clamps to the final sample.
    assert_eq!(out, vec![0, 50, 100, 100]);
}

#[test]
fn resample_empty_input() {
    let out = resample(&Vec::new(), 44100, 16000);
    assert!(out.is_empty());
}

#[test]
fn resample_rate_conversion_length() {
    let samples = vec![0; 44100];
    let out = resample(&samples, 44100, 16000);
    assert_eq!(out.len(), 16000);
}

#[test]
fn sample_encode_full_scale() {
    assert_eq!(encode_sample(FP_ONE), 32767);
    assert_eq!(encode_sample(-FP_ONE), -32767);
    assert_eq!(encode_sample(0), 0);
}

#[test]
fn sample_encode_clamps_out_of_range() {
    assert_eq!(encode_sample(3 * FP_ONE), 32767);
    assert_eq!(encode_sample(-3 * FP_ONE), -32768);
    assert_eq!(encode_sample(i32::MAX), 32767);
    assert_eq!(encode_sample(i32::MIN), -32768);
}

#[test]
fn sample_decode_full_scale() {
    assert_eq!(decode_sample(32767), FP_ONE);
    assert_eq!(decode_sample(-32767), -FP_ONE);
    assert_eq!(decode_sample(0), 0);
}

#[test]
fn sample_roundtrip_within_quantization_error() {
    let mut x = -FP_ONE;
    while x <= FP_ONE {
        let back = decode_sample(encode_sample(x));
        assert!((back - x).abs() <= 1, "sample {} came back as {}", x, back);
        x += 997;
    }
    for &x in &[-FP_ONE, -1, 0, 1, FP_ONE, 12345, -54321] {
        let back = decode_sample(encode_sample(x));
        assert!((back - x).abs() <= 1);
    }
}

#[test]
fn sample_fixed_point_matches_float_view() {
    let quarter = (0.25f32 * FP_ONE as f32) as i32;
    assert_eq!(encode_sample(quarter), 8192);
}

#[test]
fn wav_header_layout() {
    let samples = vec![0, FP_ONE, -FP_ONE];
    let bytes = encode_wav(&samples, 16000, 1);
    assert_eq!(bytes.len(), 44 + 2 * samples.len());
    assert_eq!(&bytes[0..4], b"RIFF");
    let riff_size = u32::from_le_bytes([bytes[4], bytes[5], bytes[6], bytes[7]]);
    assert_eq!(riff_size, 36 + 2 * samples.len() as u32);
    assert_eq!(&bytes[8..12], b"WAVE");
    assert_eq!(&bytes[12..16], b"fmt ");
    assert_eq!(u32::from_le_bytes([bytes[16], bytes[17], bytes[18], bytes[19]]), 16);
    assert_eq!(u16::from_le_bytes([bytes[20], bytes[21]]), 1); // integer PCM
    assert_eq!(u16::from_le_bytes([bytes[22], bytes[23]]), 1); // mono
    assert_eq!(u32::from_le_bytes([bytes[24], bytes[25], bytes[26], bytes[27]]), 16000);
    assert_eq!(u32::from_le_bytes([bytes[28], bytes[29], bytes[30], bytes[31]]), 32000);
    assert_eq!(u16::from_le_bytes([bytes[32], bytes[33]]), 2); // block align
    assert_eq!(u16::from_le_bytes([bytes[34], bytes[35]]), 16); // bits
    assert_eq!(&bytes[36..40], b"data");
    let data_size = u32::from_le_bytes([bytes[40], bytes[41], bytes[42], bytes[43]]);
    assert_eq!(data_size, 2 * samples.len() as u32);
}

#[test]
fn wav_roundtrip_within_quantization_error() {
    let samples: Vec<i32> = (-16..=16).map(|k| k * 4096).collect();
    let bytes = encode_wav(&samples, 16000, 1);
    let decoded = decode_wav_to_samples(&bytes).unwrap();
    assert_eq!(decoded.len(), samples.len());
    for (a, b) in samples.iter().zip(decoded.iter()) {
        assert!((a - b).abs() <= 1, "{} decoded as {}", a, b);
    }
}

#[test]
fn wav_decode_rejects_short_input() {
    let err = decode_wav_to_samples(&vec![0u8; 8]).unwrap_err();
    assert_eq!(err.message(), "Invalid WAV");
}

#[test]
fn wav_decode_rejects_bad_magic() {
    let mut bytes = encode_wav(&vec![0, 1, 2], 16000, 1);
    bytes[0] = b'X';
    let err = decode_wav_to_samples(&bytes).unwrap_err();
    assert_eq!(err.message(), "Invalid WAV");
}

#[test]
fn wav_decode_rejects_missing_data_chunk() {
    let mut bytes = encode_wav(&vec![0, 1, 2], 16000, 1);
    bytes.truncate(40);
    let err = decode_wav_to_samples(&bytes).unwrap_err();
    assert_eq!(err.message(), "Invalid WAV");
}

#[test]
fn wav_decode_rejects_unsupported_formats() {
    // ADPCM format code.
    let mut bytes = encode_wav(&vec![0, 1, 2], 16000, 1);
    bytes[20] = 2;
    let err = decode_wav_to_samples(&bytes).unwrap_err();
    assert_eq!(err.message(), "Unsupported WAV sample format");
    // Integer format with a depth other than 16 bits.
    let mut bytes = encode_wav(&vec![0, 1, 2], 16000, 1);
    bytes[34] = 8;
    let err = decode_wav_to_samples(&bytes).unwrap_err();
    assert_eq!(err.message(), "Unsupported WAV sample format");
    // Float format with a depth other than 32 bits.
    let mut bytes = encode_wav(&vec![0, 1, 2], 16000, 1);
    bytes[20] = 3;
    let err = decode_wav_to_samples(&bytes).unwrap_err();
    assert_eq!(err.message(), "Unsupported WAV sample format");
}

#[test]
fn wav_decode_skips_unknown_chunks() {
    // RIFF / WAVE, then a stray chunk, then fmt and data.
    let inner = encode_wav(&vec![1000, -1000], 16000, 1);
    let mut bytes: Vec<u8> = Vec::new();
    bytes.extend_from_slice(b"RIFF");
    bytes.extend_from_slice(&0u32.to_le_bytes()); // size field is not validated
    bytes.extend_from_slice(b"WAVE");
    bytes.extend_from_slice(b"LIST");
    bytes.extend_from_slice(&3u32.to_le_bytes());
    bytes.extend_from_slice(b"abc");
    bytes.push(0); // padding to even size
    bytes.extend_from_slice(&inner[12..]); // fmt + data of a real file
    let decoded = decode_wav_to_samples(&bytes).unwrap();
    assert_eq!(decoded.len(), 2);
    assert!((decoded[0] - 1000).abs() <= 1);
    assert!((decoded[1] + 1000).abs() <= 1);
}

fn make_float_wav(samples: &[f32], rate: u32) -> Vec<u8> {
    let data_len = (samples.len() * 4) as u32;
    let mut b: Vec<u8> = Vec::new();
    b.extend_from_slice(b"RIFF");
    b.extend_from_slice(&(36 + data_len).to_le_bytes());
    b.extend_from_slice(b"WAVE");
    b.extend_from_slice(b"fmt ");
    b.extend_from_slice(&16u32.to_le_bytes());
    b.extend_from_slice(&3u16.to_le_bytes()); // IEEE float
    b.extend_from_slice(&1u16.to_le_bytes());
    b.extend_from_slice(&rate.to_le_bytes());
    b.extend_from_slice(&(rate * 4).to_le_bytes());
    b.extend_from_slice(&4u16.to_le_bytes());
    b.extend_from_slice(&32u16.to_le_bytes());
    b.extend_from_slice(b"data");
    b.extend_from_slice(&data_len.to_le_bytes());
    for s in samples {
        b.extend_from_slice(&s.to_bits().to_le_bytes());
    }
    b
}

#[test]
fn wav_decode_float_samples_pass_through() {
    let bytes = make_float_wav(&[0.0, 0.5, -0.5, 1.0, -1.0, 0.25], 16000);
    let decoded = decode_wav_to_samples(&bytes).unwrap();
    assert_eq!(decoded, vec![0, FP_ONE / 2, -FP_ONE / 2, FP_ONE, -FP_ONE, FP_ONE / 4]);
}

#[test]
fn wav_decode_float_rounds_to_nearest_unit() {
    let third = 1.0f32 / 3.0;
    let bytes = make_float_wav(&[third], 16000);
    let decoded = decode_wav_to_samples(&bytes).unwrap();
    let expected = (third as f64 * FP_ONE as f64).round() as i32;
    assert_eq!(decoded, vec![expected]);
}

#[test]
fn wav_decode_float_saturates_out_of_range() {
    let bytes = make_float_wav(&[1.0e9, -1.0e9, f32::INFINITY, f32::NEG_INFINITY], 16000);
    let decoded = decode_wav_to_samples(&bytes).unwrap();
    assert_eq!(decoded, vec![i32::MAX, -i32::MAX, i32::MAX, -i32::MAX]);
}

#[test]
fn wav_decode_float_subnormals_round_to_zero() {
    let tiny = f32::from_bits(1); // smallest positive subnormal
    let bytes = make_float_wav(&[tiny, -tiny, 1.0e-8], 16000);
    let decoded = decode_wav_to_samples(&bytes).unwrap();
    assert_eq!(decoded, vec![0, 0, 0]);
}
