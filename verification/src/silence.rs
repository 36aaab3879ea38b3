//! How much of a WAVE payload is near-silent, as an exact fraction of its
//! sample units. Samples are classified on their encoded bytes; nothing here
//! computes in floating point.

use vstd::prelude::*;
use crate::le::{le_value, lemma_le_limit_values, read_le};
use crate::wav::{
    WavError, WavFmt, lemma_found_chunk, parse_wav_data, parse_wav_fmt, parsed_data, parsed_fmt,
    tag_data,
};

verus! {

/// A fraction `numer / denom` between 0 and 1.
#[derive(Clone, Copy, Debug, PartialEq, Eq, Structural)]
pub struct Ratio {
    pub numer: usize,
    pub denom: usize,
}

impl Ratio {
    /// The denominator is positive and the fraction is at most 1.
    pub open spec fn is_valid(self) -> bool {
        0 < self.denom && self.numer <= self.denom
    }
}

/// How the payload is cut into units and how a unit is judged.
#[derive(Clone, Copy, Debug, PartialEq, Eq, Structural)]
pub enum SampleLayout {
    /// Signed 16-bit integers: units of two bytes.
    Pcm16,
    /// IEEE-754 single-precision floats: units of four bytes.
    Float32,
    /// Anything else: frames of `block_align` bytes (at least one).
    Frame,
}

/// A 16-bit sample is silent when its magnitude is at most this: 1% of full
/// scale (32767), rounded down; about -40 dBFS.
pub const PCM16_THRESHOLD: u32 = 327;

/// The bit pattern of the single-precision float 0.005, the largest
/// magnitude of a silent float sample.
pub const FLOAT32_THRESHOLD_BITS: u32 = 0x3BA3_D70A;

/// The layout that a descriptor selects.
pub open spec fn layout_of(fmt: WavFmt) -> SampleLayout {
    if fmt.audio_format == 1 && fmt.bits_per_sample == 16 {
        SampleLayout::Pcm16
    } else if fmt.audio_format == 3 && fmt.bits_per_sample == 32 {
        SampleLayout::Float32
    } else {
        SampleLayout::Frame
    }
}

/// The bytes in one unit.
pub open spec fn unit_width(fmt: WavFmt) -> nat {
    match layout_of(fmt) {
        SampleLayout::Pcm16 => 2,
        SampleLayout::Float32 => 4,
        SampleLayout::Frame => if fmt.block_align == 0 {
            1
        } else {
            fmt.block_align as nat
        },
    }
}

/// The signed value of a 16-bit two's-complement pattern.
pub open spec fn signed16(pattern: nat) -> int {
    if pattern >= 0x8000 {
        pattern - 0x1_0000
    } else {
        pattern as int
    }
}

/// A 16-bit pattern whose signed value has magnitude at most the threshold.
pub open spec fn quiet16(pattern: nat) -> bool {
    -(PCM16_THRESHOLD as int) <= signed16(pattern) <= PCM16_THRESHOLD as int
}

/// A single-precision bit pattern whose float has magnitude at most 0.005.
/// The low 31 bits are the magnitude; among magnitudes, floats are ordered as
/// their patterns are, with infinity and every NaN above all finite values,
/// so the comparison is one of integers and no NaN passes.
pub open spec fn quiet_float32(pattern: nat) -> bool {
    pattern % 0x8000_0000 <= FLOAT32_THRESHOLD_BITS as nat
}

/// A byte that encodes silence in unsigned or offset formats.
pub open spec fn zeroish(b: u8) -> bool {
    b == 0x00 || b == 0x80
}

/// How many bytes of `frame` are `0x00` or `0x80`.
pub open spec fn zeroish_count(frame: Seq<u8>) -> nat
    decreases frame.len(),
{
    if frame.len() == 0 {
        0
    } else {
        zeroish_count(frame.drop_last()) + if zeroish(frame.last()) {
            1nat
        } else {
            0nat
        }
    }
}

/// Whether one whole unit counts as silent.
pub open spec fn unit_quiet(layout: SampleLayout, unit: Seq<u8>) -> bool {
    match layout {
        SampleLayout::Pcm16 => quiet16(le_value(unit)),
        SampleLayout::Float32 => quiet_float32(le_value(unit)),
        SampleLayout::Frame => 2 * zeroish_count(unit) >= unit.len(),
    }
}

/// The number of silent units among the whole units of `width` bytes that
/// `data` starts with; a trailing partial unit is not counted.
pub open spec fn quiet_units(layout: SampleLayout, width: nat, data: Seq<u8>) -> nat
    decreases data.len(),
{
    if width == 0 || data.len() < width {
        0
    } else {
        quiet_units(layout, width, data.skip(width as int)) + if unit_quiet(
            layout,
            data.take(width as int),
        ) {
            1nat
        } else {
            0nat
        }
    }
}

/// The fraction of silent units in a payload under a descriptor. With no
/// whole unit at all the payload counts as fully silent.
pub open spec fn payload_silence(fmt: WavFmt, data: Seq<u8>) -> Ratio {
    let width = unit_width(fmt);
    if data.len() / width == 0 {
        Ratio { numer: 1, denom: 1 }
    } else {
        Ratio {
            numer: quiet_units(layout_of(fmt), width, data) as usize,
            denom: (data.len() / width) as usize,
        }
    }
}

/// What `estimate_wav_silence_ratio` makes of a buffer.
pub open spec fn silence_of(bytes: Seq<u8>) -> Result<Ratio, WavError> {
    match parsed_fmt(bytes) {
        Err(e) => Err(e),
        Ok((fmt, _)) => match parsed_data(bytes) {
            Err(e) => Err(e),
            Ok(data) => Ok(payload_silence(fmt, data)),
        },
    }
}

/// There are no more silent units than whole units.
pub proof fn lemma_quiet_units_bound(layout: SampleLayout, width: nat, data: Seq<u8>)
    requires
        width > 0,
    ensures
        quiet_units(layout, width, data) <= data.len() / width,
    decreases data.len(),
{
    if data.len() >= width {
        let rest = data.skip(width as int);
        lemma_quiet_units_bound(layout, width, rest);
        assert(data.len() / width == rest.len() / width + 1) by (nonlinear_arith)
            requires
                width > 0,
                data.len() == rest.len() + width,
        ;
    } else {
        assert(data.len() / width == 0) by (nonlinear_arith)
            requires
                width > 0,
                data.len() < width,
        ;
    }
}

/// The layout and unit width that a descriptor selects.
fn layout_for(fmt: &WavFmt) -> (r: (SampleLayout, usize))
    ensures
        r.0 == layout_of(*fmt),
        r.1 == unit_width(*fmt),
        r.1 > 0,
{
    if fmt.audio_format == 1 && fmt.bits_per_sample == 16 {
        (SampleLayout::Pcm16, 2)
    } else if fmt.audio_format == 3 && fmt.bits_per_sample == 32 {
        (SampleLayout::Float32, 4)
    } else if fmt.block_align == 0 {
        (SampleLayout::Frame, 1)
    } else {
        (SampleLayout::Frame, fmt.block_align as usize)
    }
}

/// Counts the bytes `0x00` and `0x80` in the frame of `width` bytes at `off`.
fn count_zeroish(data: &[u8], off: usize, width: usize) -> (r: usize)
    requires
        off + width <= data@.len(),
    ensures
        r == zeroish_count(data@.subrange(off as int, off + width)),
        r <= width,
{
    let n: usize = data.len();
    let ghost frame = data@.subrange(off as int, off + width);
    let mut count: usize = 0;
    let mut j: usize = 0;
    proof {
        assert(frame.take(0) =~= Seq::<u8>::empty());
    }
    while j < width
        invariant
            j <= width,
            off + width <= n,
            n == data@.len(),
            frame == data@.subrange(off as int, off + width),
            count == zeroish_count(frame.take(j as int)),
            count <= j,
        decreases width - j,
    {
        let b: u8 = data[off + j];
        proof {
            let next = frame.take(j + 1);
            assert(next.drop_last() =~= frame.take(j as int));
            assert(next.last() == b);
        }
        if b == 0x00 || b == 0x80 {
            count = count + 1;
        }
        j = j + 1;
    }
    proof {
        assert(frame.take(width as int) =~= frame);
    }
    count
}

/// Whether the unit of `width` bytes at `off` counts as silent.
fn unit_is_quiet(layout: SampleLayout, data: &[u8], off: usize, width: usize) -> (r: bool)
    requires
        off + width <= data@.len(),
        layout == SampleLayout::Pcm16 ==> width == 2,
        layout == SampleLayout::Float32 ==> width == 4,
        width <= 0xffff,
    ensures
        r == unit_quiet(layout, data@.subrange(off as int, off + width)),
{
    match layout {
        SampleLayout::Pcm16 => {
            let pattern: u32 = read_le(data, off, 2);
            proof {
                lemma_le_limit_values();
            }
            pattern <= PCM16_THRESHOLD || pattern >= 0x1_0000 - PCM16_THRESHOLD
        },
        SampleLayout::Float32 => {
            let pattern: u32 = read_le(data, off, 4);
            pattern % 0x8000_0000 <= FLOAT32_THRESHOLD_BITS
        },
        SampleLayout::Frame => {
            let zeros: usize = count_zeroish(data, off, width);
            zeros * 2 >= width
        },
    }
}

/// The fraction of silent units in a payload under a descriptor.
pub fn measure_silence(fmt: &WavFmt, data: &[u8]) -> (r: Ratio)
    ensures
        r == payload_silence(*fmt, data@),
        r.is_valid(),
{
    let (layout, width) = layout_for(fmt);
    let n: usize = data.len();
    let total: usize = n / width;
    if total == 0 {
        return Ratio { numer: 1, denom: 1 };
    }
    let mut silent: usize = 0;
    let mut seen: usize = 0;
    let mut off: usize = 0;
    proof {
        assert(data@.skip(0) =~= data@);
        lemma_quiet_units_bound(layout, width as nat, data@);
    }
    while n - off >= width
        invariant
            n == data@.len(),
            0 < width <= 0xffff,
            layout == SampleLayout::Pcm16 ==> width == 2,
            layout == SampleLayout::Float32 ==> width == 4,
            off <= n,
            silent <= seen <= off,
            silent + quiet_units(layout, width as nat, data@.skip(off as int)) == quiet_units(
                layout,
                width as nat,
                data@,
            ),
        decreases n - off,
    {
        proof {
            let here = data@.skip(off as int);
            assert(here.take(width as int) =~= data@.subrange(off as int, off + width));
            assert(here.skip(width as int) =~= data@.skip(off + width));
        }
        if unit_is_quiet(layout, data, off, width) {
            silent = silent + 1;
        }
        seen = seen + 1;
        off = off + width;
    }
    Ratio { numer: silent, denom: total }
}

/// Estimates how much of a WAVE file's payload is near-silent: the number of
/// silent units over the number of whole units, or 1/1 where there is none.
pub fn estimate_wav_silence_ratio(bytes: &[u8]) -> (r: Result<Ratio, WavError>)
    ensures
        r == silence_of(bytes@),
        r matches Ok(ratio) ==> ratio.is_valid(),
{
    let (fmt, _) = match parse_wav_fmt(bytes) {
        Err(e) => {
            return Err(e);
        },
        Ok(found) => found,
    };
    match parse_wav_data(bytes) {
        Err(e) => Err(e),
        Ok(data) => Ok(measure_silence(&fmt, data)),
    }
}

/// What two bytes denote as a 16-bit pattern.
proof fn lemma_pattern16(unit: Seq<u8>)
    requires
        unit.len() == 2,
    ensures
        le_value(unit) == unit[0] + 256 * unit[1],
{
    reveal_with_fuel(le_value, 3);
    assert(unit.drop_first()[0] == unit[1]);
    assert(unit.drop_first().drop_first().len() == 0);
}

/// Every unit of an all-zero 16-bit payload is silent.
pub proof fn lemma_zero_pcm16_units(data: Seq<u8>)
    requires
        forall|i: int| 0 <= i < data.len() ==> data[i] == 0,
    ensures
        quiet_units(SampleLayout::Pcm16, 2, data) == data.len() / 2,
    decreases data.len(),
{
    if data.len() >= 2 {
        lemma_zero_pcm16_units(data.skip(2));
        lemma_pattern16(data.take(2));
    }
}

/// No unit of a 16-bit payload that repeats the bytes `0x00, 0x7F` (the
/// sample 32512) is silent.
pub proof fn lemma_loud_pcm16_units(data: Seq<u8>)
    requires
        forall|i: int| 0 <= i < data.len() ==> data[i] == (if i % 2 == 0 { 0x00u8 } else { 0x7Fu8 }),
    ensures
        quiet_units(SampleLayout::Pcm16, 2, data) == 0,
    decreases data.len(),
{
    if data.len() >= 2 {
        let rest = data.skip(2);
        assert forall|i: int| 0 <= i < rest.len() implies rest[i] == (if i % 2 == 0 {
            0x00u8
        } else {
            0x7Fu8
        }) by {
            assert(rest[i] == data[i + 2]);
        }
        lemma_loud_pcm16_units(rest);
        lemma_pattern16(data.take(2));
        assert(data.take(2)[0] == data[0] && data.take(2)[1] == data[1]);
    }
}

/// A 16-bit PCM file whose payload is all zero is fully silent: the ratio is
/// one, whatever the payload's length.
pub proof fn lemma_zero_pcm16_is_silent(bytes: Seq<u8>)
    requires
        bytes.len() <= usize::MAX,
        parsed_fmt(bytes) is Ok,
        parsed_data(bytes) is Ok,
        layout_of(parsed_fmt(bytes)->Ok_0.0) == SampleLayout::Pcm16,
        forall|i: int|
            0 <= i < parsed_data(bytes)->Ok_0.len() ==> (parsed_data(bytes)->Ok_0)[i] == 0,
    ensures
        silence_of(bytes) is Ok,
        silence_of(bytes)->Ok_0.numer == silence_of(bytes)->Ok_0.denom,
        parsed_data(bytes)->Ok_0.len() >= 2 ==> silence_of(bytes)->Ok_0.denom == parsed_data(
            bytes,
        )->Ok_0.len() / 2,
{
    lemma_found_chunk(bytes, tag_data(), 12);
    lemma_zero_pcm16_units(parsed_data(bytes)->Ok_0);
}

/// A 16-bit PCM file whose payload repeats the bytes `0x00, 0x7F` at least
/// once has no silent unit: the ratio is zero.
pub proof fn lemma_loud_pcm16_is_not_silent(bytes: Seq<u8>)
    requires
        bytes.len() <= usize::MAX,
        parsed_fmt(bytes) is Ok,
        parsed_data(bytes) is Ok,
        layout_of(parsed_fmt(bytes)->Ok_0.0) == SampleLayout::Pcm16,
        parsed_data(bytes)->Ok_0.len() >= 2,
        forall|i: int|
            0 <= i < parsed_data(bytes)->Ok_0.len() ==> (parsed_data(bytes)->Ok_0)[i] == (if i % 2
                == 0 {
                0x00u8
            } else {
                0x7Fu8
            }),
    ensures
        silence_of(bytes) is Ok,
        silence_of(bytes)->Ok_0.numer == 0,
        silence_of(bytes)->Ok_0.denom == parsed_data(bytes)->Ok_0.len() / 2,
{
    lemma_found_chunk(bytes, tag_data(), 12);
    lemma_loud_pcm16_units(parsed_data(bytes)->Ok_0);
}

} // verus!
