//! RIFF/WAVE containers in memory: the model of a file as a sequence of
//! tagged, length-prefixed chunks after a 12-byte outer header, the parser
//! for the `fmt ` and `data` chunks, and the writer of a fresh header.

use vstd::prelude::*;
use crate::le::{
    le_digits, le_field, lemma_le_limit_values, lemma_le_value_bound, push_le, read_le,
};

verus! {

/// The decoded fixed part of a `fmt ` chunk.
#[derive(Clone, Copy, Debug, PartialEq, Eq, Structural)]
pub struct WavFmt {
    /// 1 = integer PCM, 3 = IEEE float.
    pub audio_format: u16,
    pub num_channels: u16,
    pub sample_rate: u32,
    pub byte_rate: u32,
    pub block_align: u16,
    pub bits_per_sample: u16,
}

/// Why a container was rejected.
#[derive(Clone, Copy, Debug, PartialEq, Eq, Structural)]
pub enum WavError {
    /// The outer `RIFF`....`WAVE` magic is missing or wrong.
    InvalidContainer,
    /// A `fmt ` chunk declares fewer than 16 bytes.
    MalformedChunk,
    /// No `fmt ` chunk before the scan ended.
    MissingFormatChunk,
    /// No `data` chunk before the scan ended.
    MissingDataChunk,
    /// Two fragments' format descriptors differ in some field.
    FormatMismatch,
    /// A length does not fit the 32-bit size fields of the header.
    SizeOverflow,
}

/// Bytes of the outer header: magic, size field, form type.
pub const OUTER_HEADER_LEN: usize = 12;

/// Bytes of a chunk header: tag and declared length.
pub const CHUNK_HEADER_LEN: usize = 8;

/// Bytes of the fixed part of a `fmt ` chunk, and the least length it may declare.
pub const FMT_MIN_SIZE: u32 = 16;

/// ASCII `RIFF`.
pub open spec fn tag_riff() -> Seq<u8> {
    seq![0x52u8, 0x49u8, 0x46u8, 0x46u8]
}

/// ASCII `WAVE`.
pub open spec fn tag_wave() -> Seq<u8> {
    seq![0x57u8, 0x41u8, 0x56u8, 0x45u8]
}

/// ASCII `fmt ` (with the trailing space).
pub open spec fn tag_fmt() -> Seq<u8> {
    seq![0x66u8, 0x6du8, 0x74u8, 0x20u8]
}

/// ASCII `data`.
pub open spec fn tag_data() -> Seq<u8> {
    seq![0x64u8, 0x61u8, 0x74u8, 0x61u8]
}

/// The buffer starts with `RIFF`, four bytes of size, and `WAVE`.
pub open spec fn has_wave_magic(bytes: Seq<u8>) -> bool {
    &&& bytes.len() >= 12
    &&& bytes.subrange(0, 4) == tag_riff()
    &&& bytes.subrange(8, 12) == tag_wave()
}

/// The length that the chunk header at `off` declares.
pub open spec fn declared_size(bytes: Seq<u8>, off: int) -> nat {
    le_field(bytes, off + 4, 4)
}

/// A whole chunk, header and declared payload, lies in the buffer at `off`.
pub open spec fn chunk_fits(bytes: Seq<u8>, off: int) -> bool {
    &&& 0 <= off
    &&& off + 8 <= bytes.len()
    &&& off + 8 + declared_size(bytes, off) <= bytes.len()
}

/// Where the chunk after the one at `off` starts: chunks are word-aligned, so
/// a payload of odd length is followed by one pad byte.
pub open spec fn next_chunk(bytes: Seq<u8>, off: int) -> int {
    off + 8 + declared_size(bytes, off) + declared_size(bytes, off) % 2
}

/// The offset of the header of the first chunk tagged `tag`, scanning chunk by
/// chunk from `off`. The scan ends without a result at the first chunk that
/// does not fit in the buffer.
pub open spec fn find_chunk(bytes: Seq<u8>, tag: Seq<u8>, off: int) -> Option<int>
    decreases bytes.len() + 1 - off,
{
    if !chunk_fits(bytes, off) {
        None
    } else if bytes.subrange(off, off + 4) == tag {
        Some(off)
    } else {
        find_chunk(bytes, tag, next_chunk(bytes, off))
    }
}

/// A chunk that the scan finds lies whole in the buffer, at or after the
/// place the scan started from, carries the tag, and declares a 32-bit length.
pub proof fn lemma_found_chunk(bytes: Seq<u8>, tag: Seq<u8>, from: int)
    requires
        find_chunk(bytes, tag, from) is Some,
    ensures
        ({
            let off = find_chunk(bytes, tag, from)->Some_0;
            &&& from <= off
            &&& chunk_fits(bytes, off)
            &&& bytes.subrange(off, off + 4) == tag
            &&& declared_size(bytes, off) <= u32::MAX
        }),
    decreases bytes.len() + 1 - from,
{
    if bytes.subrange(from, from + 4) == tag {
        lemma_le_value_bound(bytes.subrange(from + 4, from + 4 + 4));
        lemma_le_limit_values();
    } else {
        lemma_found_chunk(bytes, tag, next_chunk(bytes, from));
    }
}

/// The descriptor whose sixteen encoded bytes start at `at`.
pub open spec fn fmt_at(bytes: Seq<u8>, at: int) -> WavFmt {
    WavFmt {
        audio_format: le_field(bytes, at, 2) as u16,
        num_channels: le_field(bytes, at + 2, 2) as u16,
        sample_rate: le_field(bytes, at + 4, 4) as u32,
        byte_rate: le_field(bytes, at + 8, 4) as u32,
        block_align: le_field(bytes, at + 12, 2) as u16,
        bits_per_sample: le_field(bytes, at + 14, 2) as u16,
    }
}

/// What `parse_wav_fmt` makes of a buffer: the descriptor of the first `fmt `
/// chunk with the length that chunk declares, or the reason for rejecting it.
pub open spec fn parsed_fmt(bytes: Seq<u8>) -> Result<(WavFmt, u32), WavError> {
    if !has_wave_magic(bytes) {
        Err(WavError::InvalidContainer)
    } else {
        match find_chunk(bytes, tag_fmt(), 12) {
            None => Err(WavError::MissingFormatChunk),
            Some(off) => if declared_size(bytes, off) < 16 {
                Err(WavError::MalformedChunk)
            } else {
                Ok((fmt_at(bytes, off + 8), declared_size(bytes, off) as u32))
            },
        }
    }
}

/// What `parse_wav_data` makes of a buffer: the payload of the first `data`
/// chunk, or the reason for rejecting it.
pub open spec fn parsed_data(bytes: Seq<u8>) -> Result<Seq<u8>, WavError> {
    if !has_wave_magic(bytes) {
        Err(WavError::InvalidContainer)
    } else {
        match find_chunk(bytes, tag_data(), 12) {
            None => Err(WavError::MissingDataChunk),
            Some(off) => Ok(bytes.subrange(off + 8, off + 8 + declared_size(bytes, off))),
        }
    }
}

/// The length that a written `fmt ` chunk declares: the requested one, but at
/// least the sixteen bytes of the fixed part.
pub open spec fn effective_fmt_size(fmt_size: u32) -> nat {
    if fmt_size < 16 {
        16
    } else {
        fmt_size as nat
    }
}

/// The value of the outer size field: the bytes that follow it, which are the
/// form type, the `fmt ` chunk and the `data` chunk.
pub open spec fn riff_size(fmt_size: u32, data_len: nat) -> nat {
    4 + (8 + effective_fmt_size(fmt_size)) + (8 + data_len)
}

/// The outer size, and with it the data length, fits a 32-bit field.
pub open spec fn header_fits(fmt_size: u32, data_len: nat) -> bool {
    riff_size(fmt_size, data_len) <= u32::MAX
}

/// The sixteen bytes that encode a descriptor.
pub open spec fn fmt_payload(fmt: WavFmt) -> Seq<u8> {
    le_digits(fmt.audio_format as nat, 2) + le_digits(fmt.num_channels as nat, 2) + le_digits(
        fmt.sample_rate as nat,
        4,
    ) + le_digits(fmt.byte_rate as nat, 4) + le_digits(fmt.block_align as nat, 2) + le_digits(
        fmt.bits_per_sample as nat,
        2,
    )
}

/// `n` zero bytes.
pub open spec fn zero_bytes(n: nat) -> Seq<u8> {
    Seq::new(n, |i: int| 0u8)
}

/// The header that precedes a payload of `data_len` bytes: outer header,
/// the whole `fmt ` chunk (its fixed part zero-padded to the declared
/// length), and the header of the `data` chunk.
pub open spec fn wav_header(fmt: WavFmt, fmt_size: u32, data_len: nat) -> Seq<u8> {
    tag_riff() + le_digits(riff_size(fmt_size, data_len), 4) + tag_wave() + tag_fmt() + le_digits(
        effective_fmt_size(fmt_size),
        4,
    ) + fmt_payload(fmt) + zero_bytes((effective_fmt_size(fmt_size) - 16) as nat) + tag_data()
        + le_digits(data_len, 4)
}

/// The descriptor of integer PCM at the given rate, channel count and width.
pub open spec fn pcm_fmt(sample_rate: u32, channels: u16, bits_per_sample: u16) -> WavFmt {
    WavFmt {
        audio_format: 1,
        num_channels: channels,
        sample_rate,
        byte_rate: (sample_rate * (channels * (bits_per_sample / 8))) as u32,
        block_align: (channels * (bits_per_sample / 8)) as u16,
        bits_per_sample,
    }
}

/// The derived fields of the PCM descriptor fit their 16-bit and 32-bit fields.
pub open spec fn pcm_fmt_fits(sample_rate: u32, channels: u16, bits_per_sample: u16) -> bool {
    &&& channels * (bits_per_sample / 8) <= u16::MAX
    &&& sample_rate * (channels * (bits_per_sample / 8)) <= u32::MAX
}

impl WavFmt {
    /// The derived fields agree with the primary ones.
    pub open spec fn is_consistent(self) -> bool {
        &&& self.block_align == self.num_channels * (self.bits_per_sample / 8)
        &&& self.byte_rate == self.sample_rate * self.block_align
    }
}

impl WavError {
    /// A short description for a log line.
    pub fn message(&self) -> (s: &'static str)
        ensures
            s@ == match *self {
                WavError::InvalidContainer => "invalid WAV header"@,
                WavError::MalformedChunk => "fmt chunk too small"@,
                WavError::MissingFormatChunk => "fmt chunk not found"@,
                WavError::MissingDataChunk => "data chunk not found"@,
                WavError::FormatMismatch => "WAV format mismatch across chunks"@,
                WavError::SizeOverflow => "WAV size exceeds 32 bits"@,
            },
    {
        match self {
            WavError::InvalidContainer => "invalid WAV header",
            WavError::MalformedChunk => "fmt chunk too small",
            WavError::MissingFormatChunk => "fmt chunk not found",
            WavError::MissingDataChunk => "data chunk not found",
            WavError::FormatMismatch => "WAV format mismatch across chunks",
            WavError::SizeOverflow => "WAV size exceeds 32 bits",
        }
    }
}

/// Whether the four bytes at `off` are `tag`.
fn tag_at(bytes: &[u8], off: usize, tag: [u8; 4]) -> (r: bool)
    requires
        off + 4 <= bytes@.len(),
    ensures
        r == (bytes@.subrange(off as int, off + 4) == tag@),
{
    let n: usize = bytes.len();
    let r = bytes[off] == tag[0] && bytes[off + 1] == tag[1] && bytes[off + 2] == tag[2]
        && bytes[off + 3] == tag[3];
    proof {
        let s = bytes@.subrange(off as int, off + 4);
        if r {
            assert(s =~= tag@);
        } else {
            assert(s[0] == bytes@[off + 0] && s[1] == bytes@[off + 1] && s[2] == bytes@[off + 2]
                && s[3] == bytes@[off + 3]);
        }
    }
    r
}

/// Whether the buffer opens with the `RIFF`....`WAVE` magic.
fn check_magic(bytes: &[u8]) -> (r: bool)
    ensures
        r == has_wave_magic(bytes@),
{
    if bytes.len() < OUTER_HEADER_LEN {
        return false;
    }
    let riff: [u8; 4] = [0x52, 0x49, 0x46, 0x46];
    let wave: [u8; 4] = [0x57, 0x41, 0x56, 0x45];
    proof {
        assert(riff@ =~= tag_riff());
        assert(wave@ =~= tag_wave());
    }
    tag_at(bytes, 0, riff) && tag_at(bytes, 8, wave)
}

/// Scans the chunks after the outer header for the first one tagged `tag`.
/// Gives the offset of its payload and its declared length.
fn scan_for(bytes: &[u8], tag: [u8; 4]) -> (r: Option<(usize, u32)>)
    requires
        bytes@.len() >= 12,
    ensures
        match r {
            Some((start, size)) => {
                &&& find_chunk(bytes@, tag@, 12) == Some(start - 8)
                &&& size == declared_size(bytes@, start - 8)
                &&& start + size <= bytes.len()
            },
            None => find_chunk(bytes@, tag@, 12) is None,
        },
{
    let n: usize = bytes.len();
    let mut off: usize = OUTER_HEADER_LEN;
    loop
        invariant
            n == bytes@.len(),
            12 <= off <= n,
            find_chunk(bytes@, tag@, 12) == find_chunk(bytes@, tag@, off as int),
        decreases n - off,
    {
        if n - off < CHUNK_HEADER_LEN {
            return None;
        }
        let size: u32 = read_le(bytes, off + 4, 4);
        let start: usize = off + CHUNK_HEADER_LEN;
        if size as usize > n - start {
            return None;
        }
        if tag_at(bytes, off, tag) {
            return Some((start, size));
        }
        let end: usize = start + size as usize;
        if size % 2 == 1 {
            if end == n {
                proof {
                    assert(next_chunk(bytes@, off as int) == n + 1);
                    assert(find_chunk(bytes@, tag@, n + 1) is None);
                }
                return None;
            }
            off = end + 1;
        } else {
            off = end;
        }
    }
}

/// Reads the descriptor and the declared length of the first `fmt ` chunk.
pub fn parse_wav_fmt(bytes: &[u8]) -> (r: Result<(WavFmt, u32), WavError>)
    ensures
        r == parsed_fmt(bytes@),
{
    if !check_magic(bytes) {
        return Err(WavError::InvalidContainer);
    }
    let tag: [u8; 4] = [0x66, 0x6d, 0x74, 0x20];
    proof {
        assert(tag@ =~= tag_fmt());
    }
    match scan_for(bytes, tag) {
        None => Err(WavError::MissingFormatChunk),
        Some((start, size)) => {
            if size < FMT_MIN_SIZE {
                return Err(WavError::MalformedChunk);
            }
            proof {
                lemma_le_limit_values();
            }
            let fmt = WavFmt {
                audio_format: read_le(bytes, start, 2) as u16,
                num_channels: read_le(bytes, start + 2, 2) as u16,
                sample_rate: read_le(bytes, start + 4, 4),
                byte_rate: read_le(bytes, start + 8, 4),
                block_align: read_le(bytes, start + 12, 2) as u16,
                bits_per_sample: read_le(bytes, start + 14, 2) as u16,
            };
            Ok((fmt, size))
        },
    }
}

/// Borrows the payload of the first `data` chunk.
pub fn parse_wav_data(bytes: &[u8]) -> (r: Result<&[u8], WavError>)
    ensures
        match r {
            Ok(data) => parsed_data(bytes@) == Ok::<Seq<u8>, WavError>(data@),
            Err(e) => parsed_data(bytes@) == Err::<Seq<u8>, WavError>(e),
        },
{
    if !check_magic(bytes) {
        return Err(WavError::InvalidContainer);
    }
    let tag: [u8; 4] = [0x64, 0x61, 0x74, 0x61];
    proof {
        assert(tag@ =~= tag_data());
    }
    match scan_for(bytes, tag) {
        None => Err(WavError::MissingDataChunk),
        Some((start, size)) => Ok(vstd::slice::slice_subrange(bytes, start, start + size as usize)),
    }
}

/// Appends the four bytes of a tag.
fn push_tag(out: &mut Vec<u8>, tag: [u8; 4])
    ensures
        final(out)@ == old(out)@ + tag@,
{
    out.push(tag[0]);
    out.push(tag[1]);
    out.push(tag[2]);
    out.push(tag[3]);
    proof {
        assert(out@ =~= old(out)@ + tag@);
    }
}

/// Appends `count` zero bytes.
fn push_zeros(out: &mut Vec<u8>, count: u32)
    ensures
        final(out)@ == old(out)@ + zero_bytes(count as nat),
{
    let mut i: u32 = 0;
    proof {
        assert(out@ =~= old(out)@ + zero_bytes(0));
    }
    while i < count
        invariant
            i <= count,
            out@ == old(out)@ + zero_bytes(i as nat),
        decreases count - i,
    {
        out.push(0);
        proof {
            assert(out@ =~= old(out)@ + zero_bytes((i + 1) as nat));
        }
        i = i + 1;
    }
}

/// Appends to `out` the header for a payload of `data_len` bytes; the payload
/// itself is the caller's to append. A `fmt_size` under 16 is raised to 16.
/// Lengths that do not fit the 32-bit size fields are refused and `out` is
/// left as it was.
pub fn write_wav_header(out: &mut Vec<u8>, fmt: &WavFmt, fmt_size: u32, data_len: usize) -> (r:
    Result<(), WavError>)
    ensures
        header_fits(fmt_size, data_len as nat) ==> r is Ok && final(out)@ == old(out)@ + wav_header(
            *fmt,
            fmt_size,
            data_len as nat,
        ),
        !header_fits(fmt_size, data_len as nat) ==> r == Err::<(), WavError>(
            WavError::SizeOverflow,
        ) && final(out)@ == old(out)@,
{
    let fmt_size: u32 = if fmt_size < FMT_MIN_SIZE {
        FMT_MIN_SIZE
    } else {
        fmt_size
    };
    if data_len > 0xffff_ffff {
        return Err(WavError::SizeOverflow);
    }
    let riff: u64 = 20 + fmt_size as u64 + data_len as u64;
    if riff > 0xffff_ffff {
        return Err(WavError::SizeOverflow);
    }
    push_tag(out, [0x52, 0x49, 0x46, 0x46]);
    push_le(out, riff as u32, 4);
    push_tag(out, [0x57, 0x41, 0x56, 0x45]);

    push_tag(out, [0x66, 0x6d, 0x74, 0x20]);
    push_le(out, fmt_size, 4);
    push_le(out, fmt.audio_format as u32, 2);
    push_le(out, fmt.num_channels as u32, 2);
    push_le(out, fmt.sample_rate, 4);
    push_le(out, fmt.byte_rate, 4);
    push_le(out, fmt.block_align as u32, 2);
    push_le(out, fmt.bits_per_sample as u32, 2);
    push_zeros(out, fmt_size - FMT_MIN_SIZE);

    push_tag(out, [0x64, 0x61, 0x74, 0x61]);
    push_le(out, data_len as u32, 4);
    proof {
        assert(out@ =~= old(out)@ + wav_header(*fmt, fmt_size, data_len as nat));
    }
    Ok(())
}

/// Wraps headerless PCM samples in a WAVE container with a 16-byte `fmt `
/// chunk. Refused where a derived field or the size does not fit its field.
pub fn wrap_pcm_to_wav(pcm: &[u8], sample_rate: u32, channels: u16, bits_per_sample: u16) -> (r:
    Result<Vec<u8>, WavError>)
    ensures
        match r {
            Ok(out) => {
                &&& pcm_fmt_fits(sample_rate, channels, bits_per_sample)
                &&& header_fits(16, pcm@.len())
                &&& out@ == wav_header(
                    pcm_fmt(sample_rate, channels, bits_per_sample),
                    16,
                    pcm@.len(),
                ) + pcm@
            },
            Err(e) => {
                &&& e == WavError::SizeOverflow
                &&& !(pcm_fmt_fits(sample_rate, channels, bits_per_sample) && header_fits(
                    16,
                    pcm@.len(),
                ))
            },
        },
{
    let bytes_per_sample: u32 = (bits_per_sample / 8) as u32;
    assert(channels * bytes_per_sample <= 0xffff * 0x1fff) by (nonlinear_arith)
        requires
            channels <= 0xffff,
            bytes_per_sample <= 0x1fff,
    ;
    let block_align: u32 = channels as u32 * bytes_per_sample;
    if block_align > 0xffff {
        return Err(WavError::SizeOverflow);
    }
    assert(sample_rate * block_align <= 0xffff_ffff * 0xffff) by (nonlinear_arith)
        requires
            sample_rate <= 0xffff_ffff,
            block_align <= 0xffff,
    ;
    let byte_rate: u64 = sample_rate as u64 * block_align as u64;
    if byte_rate > 0xffff_ffff {
        return Err(WavError::SizeOverflow);
    }
    let fmt = WavFmt {
        audio_format: 1,
        num_channels: channels,
        sample_rate,
        byte_rate: byte_rate as u32,
        block_align: block_align as u16,
        bits_per_sample,
    };
    let mut out: Vec<u8> = Vec::new();
    match write_wav_header(&mut out, &fmt, FMT_MIN_SIZE, pcm.len()) {
        Err(e) => Err(e),
        Ok(()) => {
            out.extend_from_slice(pcm);
            Ok(out)
        },
    }
}

} // verus!
