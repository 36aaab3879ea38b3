use audiobook::silence::{
    estimate_wav_silence_ratio, measure_silence, Ratio, FLOAT32_THRESHOLD_BITS, PCM16_THRESHOLD,
};
use audiobook::wav::{write_wav_header, WavError, WavFmt};

fn fmt(audio_format: u16, bits: u16, block_align: u16) -> WavFmt {
    WavFmt {
        audio_format,
        num_channels: 1,
        sample_rate: 16000,
        byte_rate: 16000 * block_align as u32,
        block_align,
        bits_per_sample: bits,
    }
}

fn wav(f: &WavFmt, payload: &[u8]) -> Vec<u8> {
    let mut out = Vec::new();
    write_wav_header(&mut out, f, 16, payload.len()).unwrap();
    out.extend_from_slice(payload);
    out
}

fn as_f32(r: Ratio) -> f32 {
    r.numer as f32 / r.denom as f32
}

#[test]
fn thresholds_are_the_documented_ones() {
    assert_eq!(PCM16_THRESHOLD as i32, (32767f32 * 0.01) as i32);
    assert_eq!(FLOAT32_THRESHOLD_BITS, 0.005f32.to_bits());
}

#[test]
fn all_zero_pcm16_is_fully_silent() {
    for len in [2usize, 4, 10, 4800] {
        let r = estimate_wav_silence_ratio(&wav(&fmt(1, 16, 2), &vec![0u8; len])).unwrap();
        assert_eq!(r, Ratio { numer: len / 2, denom: len / 2 });
        assert_eq!(as_f32(r), 1.0);
    }
}

#[test]
fn loud_pcm16_has_no_silence() {
    for n in [1usize, 2, 7, 1000] {
        let payload: Vec<u8> = [0x00u8, 0x7F].repeat(n);
        let r = estimate_wav_silence_ratio(&wav(&fmt(1, 16, 2), &payload)).unwrap();
        assert_eq!(r, Ratio { numer: 0, denom: n });
        assert_eq!(as_f32(r), 0.0);
    }
}

#[test]
fn empty_or_too_short_payload_counts_as_silent() {
    assert_eq!(
        estimate_wav_silence_ratio(&wav(&fmt(1, 16, 2), &[])),
        Ok(Ratio { numer: 1, denom: 1 })
    );
    assert_eq!(
        estimate_wav_silence_ratio(&wav(&fmt(1, 16, 2), &[0x7f])),
        Ok(Ratio { numer: 1, denom: 1 })
    );
    assert_eq!(
        estimate_wav_silence_ratio(&wav(&fmt(3, 32, 4), &[1, 2, 3])),
        Ok(Ratio { numer: 1, denom: 1 })
    );
    assert_eq!(
        estimate_wav_silence_ratio(&wav(&fmt(1, 8, 4), &[9, 9, 9])),
        Ok(Ratio { numer: 1, denom: 1 })
    );
}

#[test]
fn pcm16_threshold_is_inclusive_on_both_sides() {
    let samples: [i16; 8] = [327, 328, -327, -328, 0, i16::MIN, i16::MAX, -1];
    let mut payload = Vec::new();
    for s in samples {
        payload.extend_from_slice(&s.to_le_bytes());
    }
    // A trailing byte that fills no sample is not counted.
    payload.push(0);
    let r = measure_silence(&fmt(1, 16, 2), &payload);
    assert_eq!(r, Ratio { numer: 4, denom: 8 });
}

#[test]
fn pcm16_agrees_with_signed_arithmetic_on_every_sample() {
    let mut payload = Vec::new();
    let mut expected = 0usize;
    for s in i16::MIN..=i16::MAX {
        payload.extend_from_slice(&s.to_le_bytes());
        if (s as i32).abs() <= 327 {
            expected += 1;
        }
    }
    let r = measure_silence(&fmt(1, 16, 2), &payload);
    assert_eq!(r, Ratio { numer: expected, denom: 65536 });
    assert_eq!(expected, 655);
}

#[test]
fn float32_agrees_with_float_comparison() {
    let mut patterns: Vec<u32> = vec![
        0,
        0x8000_0000,
        0.005f32.to_bits(),
        0.005f32.to_bits() + 1,
        0.005f32.to_bits() - 1,
        (-0.005f32).to_bits(),
        (-0.005f32).to_bits() + 1,
        (-0.005f32).to_bits() - 1,
        f32::NAN.to_bits(),
        (-f32::NAN).to_bits(),
        0x7fc0_0001,
        0xffff_ffff,
        0x7f80_0001,
        f32::INFINITY.to_bits(),
        f32::NEG_INFINITY.to_bits(),
        f32::MIN_POSITIVE.to_bits(),
        1,
        0x8000_0001,
        1.0f32.to_bits(),
        (-1.0f32).to_bits(),
        0.0049f32.to_bits(),
        0.0051f32.to_bits(),
        f32::MAX.to_bits(),
        f32::MIN.to_bits(),
    ];
    let mut x: u32 = 12345;
    for _ in 0..20000 {
        x = x.wrapping_mul(1664525).wrapping_add(1013904223);
        patterns.push(x);
    }
    for bits in patterns {
        let v = f32::from_bits(bits);
        let expected = if v.abs() <= 0.005f32 { 1 } else { 0 };
        let r = measure_silence(&fmt(3, 32, 4), &bits.to_le_bytes());
        assert_eq!(r, Ratio { numer: expected, denom: 1 }, "pattern {:#x}", bits);
    }
}

#[test]
fn float32_ratio_over_several_samples() {
    let samples: [f32; 5] = [0.0, 0.004, -0.005, 0.5, -1.0];
    let mut payload = Vec::new();
    for s in samples {
        payload.extend_from_slice(&s.to_le_bytes());
    }
    payload.extend_from_slice(&[0, 0]);
    let r = estimate_wav_silence_ratio(&wav(&fmt(3, 32, 4), &payload)).unwrap();
    assert_eq!(r, Ratio { numer: 3, denom: 5 });
    assert_eq!(as_f32(r), 0.6);
}

#[test]
fn other_formats_count_zeroish_bytes_per_frame() {
    // Frames of four bytes: silent when at least two are 0x00 or 0x80.
    let payload = [
        0x00, 0x80, 0x01, 0x02, // silent
        0x00, 0x01, 0x02, 0x03, // not
        0x80, 0x80, 0x80, 0x80, // silent
        0x7f, 0x81, 0x01, 0xff, // not
        0x00, 0x00, // partial frame, not counted
    ];
    let r = estimate_wav_silence_ratio(&wav(&fmt(1, 8, 4), &payload)).unwrap();
    assert_eq!(r, Ratio { numer: 2, denom: 4 });
}

#[test]
fn frame_of_odd_width_needs_half_rounded_up() {
    let f = fmt(1, 24, 3);
    assert_eq!(measure_silence(&f, &[0, 1, 2]), Ratio { numer: 0, denom: 1 });
    assert_eq!(measure_silence(&f, &[0, 0x80, 2]), Ratio { numer: 1, denom: 1 });
}

#[test]
fn block_align_of_zero_means_frames_of_one_byte() {
    let f = fmt(7, 8, 0);
    assert_eq!(measure_silence(&f, &[0, 1, 0x80, 3, 0]), Ratio { numer: 3, denom: 5 });
}

#[test]
fn format_and_width_must_both_match_for_the_sample_layouts() {
    // Integer PCM of 32 bits and float of 16 bits fall back to frames.
    let zeros = [0u8; 8];
    assert_eq!(measure_silence(&fmt(1, 32, 4), &zeros), Ratio { numer: 2, denom: 2 });
    assert_eq!(measure_silence(&fmt(3, 16, 8), &zeros), Ratio { numer: 1, denom: 1 });
    let loud16 = [0x00u8, 0x7F, 0x00, 0x7F];
    // As frames of four bytes, two zero bytes of four make the frame silent.
    assert_eq!(measure_silence(&fmt(3, 16, 4), &loud16), Ratio { numer: 1, denom: 1 });
    assert_eq!(measure_silence(&fmt(1, 16, 4), &loud16), Ratio { numer: 0, denom: 2 });
}

#[test]
fn estimate_propagates_parse_errors() {
    assert_eq!(estimate_wav_silence_ratio(b"nope"), Err(WavError::InvalidContainer));
    let mut only_fmt = Vec::new();
    write_wav_header(&mut only_fmt, &fmt(1, 16, 2), 16, 0).unwrap();
    only_fmt.truncate(36);
    assert_eq!(estimate_wav_silence_ratio(&only_fmt), Err(WavError::MissingDataChunk));
    assert_eq!(
        estimate_wav_silence_ratio(b"RIFF\0\0\0\0WAVEdata\0\0\0\0"),
        Err(WavError::MissingFormatChunk)
    );
}
