//! What the parser makes of what the writer wrote.

use vstd::prelude::*;
use crate::le::{
    le_digits, le_field, le_limit, lemma_le_digits_len, lemma_le_limit_values,
    lemma_le_value_of_digits,
};
use crate::wav::{
    WavError, WavFmt, chunk_fits, declared_size, effective_fmt_size, find_chunk, fmt_at,
    has_wave_magic, header_fits, next_chunk, parsed_data, parsed_fmt, pcm_fmt, pcm_fmt_fits,
    riff_size, tag_data, tag_fmt, tag_riff, tag_wave, wav_header, zero_bytes,
};

verus! {

/// The length of a header: 28 bytes around the `fmt ` payload.
pub open spec fn header_len(fmt_size: u32) -> nat {
    28 + effective_fmt_size(fmt_size)
}

/// A field written at `at` in `bytes` reads back as the number written,
/// when the number fits the field.
proof fn lemma_field_reads_back(bytes: Seq<u8>, at: int, x: nat, width: nat)
    requires
        0 <= at,
        at + width <= bytes.len(),
        bytes.subrange(at, at + width) == le_digits(x, width),
        x < le_limit(width),
    ensures
        le_field(bytes, at, width as int) == x,
{
    lemma_le_value_of_digits(x, width);
}

/// Where each part of a header lies, and that what follows the header is untouched.
pub proof fn lemma_header_layout(fmt: WavFmt, fmt_size: u32, data_len: nat, rest: Seq<u8>)
    ensures
        ({
            let b = wav_header(fmt, fmt_size, data_len) + rest;
            let fs = effective_fmt_size(fmt_size) as int;
            &&& wav_header(fmt, fmt_size, data_len).len() == header_len(fmt_size)
            &&& b.len() == 28 + fs + rest.len()
            &&& b.subrange(0, 4) == tag_riff()
            &&& b.subrange(4, 8) == le_digits(riff_size(fmt_size, data_len), 4)
            &&& b.subrange(8, 12) == tag_wave()
            &&& b.subrange(12, 16) == tag_fmt()
            &&& b.subrange(16, 20) == le_digits(fs as nat, 4)
            &&& b.subrange(20, 22) == le_digits(fmt.audio_format as nat, 2)
            &&& b.subrange(22, 24) == le_digits(fmt.num_channels as nat, 2)
            &&& b.subrange(24, 28) == le_digits(fmt.sample_rate as nat, 4)
            &&& b.subrange(28, 32) == le_digits(fmt.byte_rate as nat, 4)
            &&& b.subrange(32, 34) == le_digits(fmt.block_align as nat, 2)
            &&& b.subrange(34, 36) == le_digits(fmt.bits_per_sample as nat, 2)
            &&& b.subrange(36, 20 + fs) == zero_bytes((fs - 16) as nat)
            &&& b.subrange(20 + fs, 24 + fs) == tag_data()
            &&& b.subrange(24 + fs, 28 + fs) == le_digits(data_len, 4)
            &&& b.subrange(28 + fs, 28 + fs + rest.len()) == rest
        }),
{
    let fs = effective_fmt_size(fmt_size) as int;
    lemma_le_digits_len(riff_size(fmt_size, data_len), 4);
    lemma_le_digits_len(fs as nat, 4);
    lemma_le_digits_len(fmt.audio_format as nat, 2);
    lemma_le_digits_len(fmt.num_channels as nat, 2);
    lemma_le_digits_len(fmt.sample_rate as nat, 4);
    lemma_le_digits_len(fmt.byte_rate as nat, 4);
    lemma_le_digits_len(fmt.block_align as nat, 2);
    lemma_le_digits_len(fmt.bits_per_sample as nat, 2);
    lemma_le_digits_len(data_len, 4);
    let b = wav_header(fmt, fmt_size, data_len) + rest;
    assert(b.subrange(0, 4) =~= tag_riff());
    assert(b.subrange(4, 8) =~= le_digits(riff_size(fmt_size, data_len), 4));
    assert(b.subrange(8, 12) =~= tag_wave());
    assert(b.subrange(12, 16) =~= tag_fmt());
    assert(b.subrange(16, 20) =~= le_digits(fs as nat, 4));
    assert(b.subrange(20, 22) =~= le_digits(fmt.audio_format as nat, 2));
    assert(b.subrange(22, 24) =~= le_digits(fmt.num_channels as nat, 2));
    assert(b.subrange(24, 28) =~= le_digits(fmt.sample_rate as nat, 4));
    assert(b.subrange(28, 32) =~= le_digits(fmt.byte_rate as nat, 4));
    assert(b.subrange(32, 34) =~= le_digits(fmt.block_align as nat, 2));
    assert(b.subrange(34, 36) =~= le_digits(fmt.bits_per_sample as nat, 2));
    assert(b.subrange(36, 20 + fs) =~= zero_bytes((fs - 16) as nat));
    assert(b.subrange(20 + fs, 24 + fs) =~= tag_data());
    assert(b.subrange(24 + fs, 28 + fs) =~= le_digits(data_len, 4));
    assert(b.subrange(28 + fs, 28 + fs + rest.len()) =~= rest);
}

/// Parsing what `write_wav_header` wrote, followed by its payload, gives back
/// the descriptor with the declared `fmt ` length, and, where that length is
/// even, exactly the payload. (After a `fmt ` chunk of odd length the writer
/// emits no pad byte, so the scanner looks for the next chunk one byte late.)
pub proof fn lemma_written_header_parses(fmt: WavFmt, fmt_size: u32, payload: Seq<u8>)
    requires
        header_fits(fmt_size, payload.len()),
    ensures
        parsed_fmt(wav_header(fmt, fmt_size, payload.len()) + payload) == Ok::<
            (WavFmt, u32),
            WavError,
        >((fmt, effective_fmt_size(fmt_size) as u32)),
        effective_fmt_size(fmt_size) % 2 == 0 ==> parsed_data(
            wav_header(fmt, fmt_size, payload.len()) + payload,
        ) == Ok::<Seq<u8>, WavError>(payload),
{
    let n = payload.len();
    let b = wav_header(fmt, fmt_size, n) + payload;
    let fs = effective_fmt_size(fmt_size) as int;
    lemma_header_layout(fmt, fmt_size, n, payload);
    lemma_le_limit_values();
    assert(has_wave_magic(b));

    // The `fmt ` chunk is the first one.
    lemma_field_reads_back(b, 16, fs as nat, 4);
    assert(declared_size(b, 12) == fs);
    assert(chunk_fits(b, 12));
    assert(find_chunk(b, tag_fmt(), 12) == Some(12int));
    lemma_field_reads_back(b, 20, fmt.audio_format as nat, 2);
    lemma_field_reads_back(b, 22, fmt.num_channels as nat, 2);
    lemma_field_reads_back(b, 24, fmt.sample_rate as nat, 4);
    lemma_field_reads_back(b, 28, fmt.byte_rate as nat, 4);
    lemma_field_reads_back(b, 32, fmt.block_align as nat, 2);
    lemma_field_reads_back(b, 34, fmt.bits_per_sample as nat, 2);
    assert(fmt_at(b, 20) == fmt);

    if fs % 2 == 0 {
        // The `data` chunk follows it directly.
        assert(tag_fmt()[0] != tag_data()[0]);
        assert(b.subrange(12, 16) != tag_data());
        assert(next_chunk(b, 12) == 20 + fs);
        lemma_field_reads_back(b, 24 + fs, n, 4);
        assert(declared_size(b, 20 + fs) == n);
        assert(chunk_fits(b, 20 + fs));
        assert(find_chunk(b, tag_data(), 20 + fs) == Some(20 + fs));
        assert(find_chunk(b, tag_data(), 12) == Some(20 + fs));
    }
}

/// Round trip at the standard `fmt ` length: a header written for a payload,
/// followed by that payload, parses to the descriptor written and to exactly
/// that payload.
pub proof fn lemma_roundtrip(fmt: WavFmt, payload: Seq<u8>)
    requires
        header_fits(16, payload.len()),
    ensures
        parsed_fmt(wav_header(fmt, 16, payload.len()) + payload) == Ok::<(WavFmt, u32), WavError>(
            (fmt, 16u32),
        ),
        parsed_data(wav_header(fmt, 16, payload.len()) + payload) == Ok::<Seq<u8>, WavError>(
            payload,
        ),
{
    lemma_written_header_parses(fmt, 16, payload);
}

/// Wrapping headerless PCM: the descriptor built for it keeps the relations
/// between its fields, the file is 44 bytes longer than the samples, its
/// `data` length field holds their number, and it parses to that descriptor
/// and to exactly the samples.
pub proof fn lemma_wrapped_pcm(pcm: Seq<u8>, sample_rate: u32, channels: u16, bits_per_sample: u16)
    requires
        pcm_fmt_fits(sample_rate, channels, bits_per_sample),
        header_fits(16, pcm.len()),
    ensures
        ({
            let fmt = pcm_fmt(sample_rate, channels, bits_per_sample);
            let out = wav_header(fmt, 16, pcm.len()) + pcm;
            &&& fmt.is_consistent()
            &&& out.len() == 44 + pcm.len()
            &&& le_field(out, 40, 4) == pcm.len()
            &&& parsed_fmt(out) == Ok::<(WavFmt, u32), WavError>((fmt, 16u32))
            &&& parsed_data(out) == Ok::<Seq<u8>, WavError>(pcm)
        }),
{
    let fmt = pcm_fmt(sample_rate, channels, bits_per_sample);
    lemma_header_layout(fmt, 16, pcm.len(), pcm);
    lemma_roundtrip(fmt, pcm);
    lemma_le_limit_values();
    lemma_field_reads_back(wav_header(fmt, 16, pcm.len()) + pcm, 40, pcm.len(), 4);
}

} // verus!
