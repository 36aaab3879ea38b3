use audiobook::merge::{merge_concat, merge_mp3, try_merge_wav};
use audiobook::wav::{
    parse_wav_data, parse_wav_fmt, wrap_pcm_to_wav, write_wav_header, WavError, WavFmt,
};

fn pcm16_mono(sample_rate: u32) -> WavFmt {
    WavFmt {
        audio_format: 1,
        num_channels: 1,
        sample_rate,
        byte_rate: sample_rate * 2,
        block_align: 2,
        bits_per_sample: 16,
    }
}

fn wav_of(fmt: &WavFmt, fmt_size: u32, payload: &[u8]) -> Vec<u8> {
    let mut out = Vec::new();
    write_wav_header(&mut out, fmt, fmt_size, payload.len()).unwrap();
    out.extend_from_slice(payload);
    out
}

fn chunk(tag: &[u8; 4], payload: &[u8]) -> Vec<u8> {
    let mut out = tag.to_vec();
    out.extend_from_slice(&(payload.len() as u32).to_le_bytes());
    out.extend_from_slice(payload);
    if payload.len() % 2 == 1 {
        out.push(0);
    }
    out
}

fn riff(chunks: &[Vec<u8>]) -> Vec<u8> {
    let body: Vec<u8> = chunks.concat();
    let mut out = b"RIFF".to_vec();
    out.extend_from_slice(&((body.len() + 4) as u32).to_le_bytes());
    out.extend_from_slice(b"WAVE");
    out.extend_from_slice(&body);
    out
}

fn fmt_bytes(fmt: &WavFmt) -> Vec<u8> {
    let mut p = Vec::new();
    p.extend_from_slice(&fmt.audio_format.to_le_bytes());
    p.extend_from_slice(&fmt.num_channels.to_le_bytes());
    p.extend_from_slice(&fmt.sample_rate.to_le_bytes());
    p.extend_from_slice(&fmt.byte_rate.to_le_bytes());
    p.extend_from_slice(&fmt.block_align.to_le_bytes());
    p.extend_from_slice(&fmt.bits_per_sample.to_le_bytes());
    p
}

#[test]
fn header_has_the_exact_bytes() {
    let fmt = pcm16_mono(24000);
    let mut out = vec![0xAA];
    write_wav_header(&mut out, &fmt, 16, 4800).unwrap();
    let mut want = vec![0xAA];
    want.extend_from_slice(b"RIFF");
    want.extend_from_slice(&4836u32.to_le_bytes());
    want.extend_from_slice(b"WAVE");
    want.extend_from_slice(b"fmt ");
    want.extend_from_slice(&16u32.to_le_bytes());
    want.extend_from_slice(&fmt_bytes(&fmt));
    want.extend_from_slice(b"data");
    want.extend_from_slice(&4800u32.to_le_bytes());
    assert_eq!(out, want);
    assert_eq!(out.len(), 1 + 44);
}

#[test]
fn header_clamps_small_fmt_size_and_pads_large_one() {
    let fmt = pcm16_mono(8000);
    let mut small = Vec::new();
    write_wav_header(&mut small, &fmt, 3, 10).unwrap();
    assert_eq!(small.len(), 44);
    assert_eq!(&small[16..20], &16u32.to_le_bytes());

    let mut large = Vec::new();
    write_wav_header(&mut large, &fmt, 18, 10).unwrap();
    assert_eq!(large.len(), 46);
    assert_eq!(&large[4..8], &(4u32 + 8 + 18 + 8 + 10).to_le_bytes());
    assert_eq!(&large[16..20], &18u32.to_le_bytes());
    assert_eq!(&large[36..38], &[0u8, 0u8]);
    assert_eq!(&large[38..42], b"data");
}

#[test]
fn header_refuses_sizes_beyond_32_bits() {
    let fmt = pcm16_mono(8000);
    let mut out = vec![1, 2, 3];
    let r = write_wav_header(&mut out, &fmt, u32::MAX, 0);
    assert_eq!(r, Err(WavError::SizeOverflow));
    assert_eq!(out, vec![1, 2, 3]);
    let r = write_wav_header(&mut out, &fmt, 16, 0xffff_ffff - 35);
    assert_eq!(r, Err(WavError::SizeOverflow));
    assert_eq!(out, vec![1, 2, 3]);
}

#[test]
fn round_trip_of_header_and_payload() {
    let fmt = WavFmt {
        audio_format: 3,
        num_channels: 2,
        sample_rate: 44100,
        byte_rate: 352800,
        block_align: 8,
        bits_per_sample: 32,
    };
    let payload: Vec<u8> = (0..=255u8).collect();
    let wav = wav_of(&fmt, 16, &payload);
    assert_eq!(parse_wav_fmt(&wav), Ok((fmt, 16)));
    assert_eq!(parse_wav_data(&wav), Ok(&payload[..]));
}

#[test]
fn parse_rejects_bad_magic() {
    assert_eq!(parse_wav_fmt(b""), Err(WavError::InvalidContainer));
    assert_eq!(parse_wav_fmt(b"RIFF\0\0\0\0WAV"), Err(WavError::InvalidContainer));
    assert_eq!(parse_wav_fmt(b"RIFX\0\0\0\0WAVE"), Err(WavError::InvalidContainer));
    assert_eq!(parse_wav_data(b"RIFF\0\0\0\0WAVX"), Err(WavError::InvalidContainer));
}

#[test]
fn parse_reports_missing_chunks() {
    let only_magic = riff(&[]);
    assert_eq!(parse_wav_fmt(&only_magic), Err(WavError::MissingFormatChunk));
    assert_eq!(parse_wav_data(&only_magic), Err(WavError::MissingDataChunk));
    let no_data = riff(&[chunk(b"fmt ", &fmt_bytes(&pcm16_mono(8000)))]);
    assert_eq!(parse_wav_fmt(&no_data), Ok((pcm16_mono(8000), 16)));
    assert_eq!(parse_wav_data(&no_data), Err(WavError::MissingDataChunk));
}

#[test]
fn parse_rejects_short_fmt_chunk() {
    let wav = riff(&[chunk(b"fmt ", &[1, 0, 1, 0]), chunk(b"data", &[1, 2])]);
    assert_eq!(parse_wav_fmt(&wav), Err(WavError::MalformedChunk));
    assert_eq!(parse_wav_data(&wav), Ok(&[1u8, 2u8][..]));
}

#[test]
fn scan_skips_pad_byte_after_odd_chunk() {
    let fmt = pcm16_mono(16000);
    let wav = riff(&[
        chunk(b"LIST", &[9, 9, 9]),
        chunk(b"fmt ", &fmt_bytes(&fmt)),
        chunk(b"data", &[5, 6, 7, 8]),
    ]);
    assert_eq!(parse_wav_fmt(&wav), Ok((fmt, 16)));
    assert_eq!(parse_wav_data(&wav), Ok(&[5u8, 6, 7, 8][..]));
}

#[test]
fn scan_stops_at_chunk_that_overruns_buffer() {
    let fmt = pcm16_mono(16000);
    let mut wav = riff(&[chunk(b"fmt ", &fmt_bytes(&fmt))]);
    wav.extend_from_slice(b"data");
    wav.extend_from_slice(&100u32.to_le_bytes());
    wav.extend_from_slice(&[1, 2, 3]);
    assert_eq!(parse_wav_fmt(&wav), Ok((fmt, 16)));
    assert_eq!(parse_wav_data(&wav), Err(WavError::MissingDataChunk));
}

#[test]
fn extended_fmt_chunk_keeps_its_declared_size() {
    let fmt = pcm16_mono(16000);
    let mut ext = fmt_bytes(&fmt);
    ext.extend_from_slice(&[0xde, 0xad]);
    let wav = riff(&[chunk(b"fmt ", &ext), chunk(b"data", &[1, 2])]);
    assert_eq!(parse_wav_fmt(&wav), Ok((fmt, 18)));
}

#[test]
fn concat_joins_in_order() {
    let a = [1u8, 2];
    let b: [u8; 0] = [];
    let c = [3u8];
    assert_eq!(merge_concat(&[&a[..], &b[..], &c[..]]), vec![1, 2, 3]);
    assert_eq!(merge_mp3(&[&c[..], &a[..]]), vec![3, 1, 2]);
    assert_eq!(merge_concat(&[]), Vec::<u8>::new());
}

#[test]
fn merge_of_nothing_is_empty() {
    assert_eq!(try_merge_wav(&[]), Ok(Vec::new()));
}

#[test]
fn merge_of_one_fragment_regenerates_the_header() {
    let fmt = pcm16_mono(24000);
    let frag = riff(&[
        chunk(b"LIST", &[1, 2, 3]),
        chunk(b"fmt ", &fmt_bytes(&fmt)),
        chunk(b"data", &[10, 20, 30, 40]),
    ]);
    let merged = try_merge_wav(&[&frag[..]]).unwrap();
    assert_eq!(merged, wav_of(&fmt, 16, &[10, 20, 30, 40]));
}

#[test]
fn merge_sums_the_payload_lengths() {
    let fmt = pcm16_mono(24000);
    let a = wav_of(&fmt, 16, &[1, 2, 3, 4]);
    let b = wav_of(&fmt, 16, &[5, 6]);
    let c = wav_of(&fmt, 16, &[]);
    let d = wav_of(&fmt, 16, &[7, 8, 9, 10, 11, 12]);
    let merged = try_merge_wav(&[&a[..], &b[..], &c[..], &d[..]]).unwrap();
    assert_eq!(merged.len(), 44 + 12);
    assert_eq!(&merged[4..8], &(4u32 + 8 + 16 + 8 + 12).to_le_bytes());
    assert_eq!(&merged[40..44], &12u32.to_le_bytes());
    assert_eq!(&merged[44..], &[1, 2, 3, 4, 5, 6, 7, 8, 9, 10, 11, 12]);
    assert_eq!(parse_wav_fmt(&merged), Ok((fmt, 16)));
    assert_eq!(parse_wav_data(&merged).unwrap().len(), 12);
}

#[test]
fn merge_rejects_differing_sample_rates() {
    let a = wav_of(&pcm16_mono(16000), 16, &[1, 2]);
    let b = wav_of(&pcm16_mono(24000), 16, &[3, 4]);
    assert_eq!(try_merge_wav(&[&a[..], &b[..]]), Err(WavError::FormatMismatch));
    assert_eq!(try_merge_wav(&[&b[..], &a[..]]), Err(WavError::FormatMismatch));
}

#[test]
fn merge_reports_the_first_issue_in_order() {
    let fmt = pcm16_mono(16000);
    let good = wav_of(&fmt, 16, &[1, 2]);
    let other = wav_of(&pcm16_mono(8000), 16, &[1, 2]);
    let no_data = riff(&[chunk(b"fmt ", &fmt_bytes(&fmt))]);
    let junk = b"not a wav".to_vec();
    assert_eq!(
        try_merge_wav(&[&good[..], &no_data[..], &other[..]]),
        Err(WavError::MissingDataChunk)
    );
    assert_eq!(
        try_merge_wav(&[&good[..], &other[..], &junk[..]]),
        Err(WavError::FormatMismatch)
    );
    assert_eq!(
        try_merge_wav(&[&good[..], &junk[..], &other[..]]),
        Err(WavError::InvalidContainer)
    );
    assert_eq!(try_merge_wav(&[&no_data[..]]), Err(WavError::MissingDataChunk));
    assert_eq!(try_merge_wav(&[&junk[..], &good[..]]), Err(WavError::InvalidContainer));
}

#[test]
fn wrap_pcm_scenario() {
    let pcm = vec![0x11u8; 4800];
    let wav = wrap_pcm_to_wav(&pcm, 24000, 1, 16).unwrap();
    assert_eq!(wav.len(), 4844);
    assert_eq!(&wav[40..44], &4800u32.to_le_bytes());
    assert_eq!(parse_wav_fmt(&wav), Ok((pcm16_mono(24000), 16)));
    assert_eq!(parse_wav_data(&wav), Ok(&pcm[..]));
}

#[test]
fn wrap_pcm_computes_derived_fields() {
    let wav = wrap_pcm_to_wav(&[0u8; 8], 44100, 2, 24).unwrap();
    let (fmt, _) = parse_wav_fmt(&wav).unwrap();
    assert_eq!(fmt.block_align, 6);
    assert_eq!(fmt.byte_rate, 264600);
    assert_eq!(fmt.audio_format, 1);
}

#[test]
fn wrap_pcm_refuses_fields_that_do_not_fit() {
    assert_eq!(wrap_pcm_to_wav(&[], u32::MAX, 1, 16), Err(WavError::SizeOverflow));
    assert_eq!(wrap_pcm_to_wav(&[], 8000, 60000, 16), Err(WavError::SizeOverflow));
}

#[test]
fn error_messages() {
    assert_eq!(WavError::InvalidContainer.message(), "invalid WAV header");
    assert_eq!(WavError::MalformedChunk.message(), "fmt chunk too small");
    assert_eq!(WavError::MissingFormatChunk.message(), "fmt chunk not found");
    assert_eq!(WavError::MissingDataChunk.message(), "data chunk not found");
    assert_eq!(WavError::FormatMismatch.message(), "WAV format mismatch across chunks");
}
