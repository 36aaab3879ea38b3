//! What a MIME type says about an audio fragment: the file extension it
//! gets, whether it is headerless PCM, and the sample rate it names.

use vstd::prelude::*;
use crate::silence::{Ratio, estimate_wav_silence_ratio, silence_of};
use crate::text::{
    chars_of, contains_text, decimal_value, digit_run, find_text, first_occurrence, has_text,
    lemma_first_occurrence, lowered, lowered_chars_of, read_decimal,
};

verus! {

/// The sample rate assumed where a MIME type names none.
pub const DEFAULT_SAMPLE_RATE: u32 = 24000;

/// The MIME type names MP3 frames.
pub open spec fn is_mp3_like(mime: Seq<char>) -> bool {
    contains_text(mime, "mpeg"@) || contains_text(mime, "mp3"@)
}

/// The MIME type names WAVE or PCM samples.
pub open spec fn is_wav_like(mime: Seq<char>) -> bool {
    contains_text(mime, "wav"@) || contains_text(mime, "x-wav"@) || contains_text(mime, "pcm"@)
        || contains_text(mime, "linear16"@)
}

/// The extension for a MIME type: the first rule that matches decides, and
/// matching is by substring, case-sensitive.
pub open spec fn extension_for(mime: Seq<char>) -> Seq<char> {
    if is_mp3_like(mime) {
        ".mp3"@
    } else if is_wav_like(mime) {
        ".wav"@
    } else if contains_text(mime, "ogg"@) {
        ".ogg"@
    } else if contains_text(mime, "flac"@) {
        ".flac"@
    } else {
        ".bin"@
    }
}

/// The MIME type, in any case, names PCM or LINEAR16 and does not name WAVE.
pub open spec fn raw_linear_pcm(mime: Seq<char>) -> bool {
    let m = lowered(mime);
    (contains_text(m, "linear16"@) || contains_text(m, "pcm"@)) && !contains_text(m, "wav"@)
}

/// The number after the first occurrence of `key` in `text`: the run of
/// ASCII digits that follows it, where there is one and it fits 32 bits.
pub open spec fn rate_after(text: Seq<char>, key: Seq<char>) -> Option<u32> {
    match first_occurrence(text, key, 0) {
        None => None,
        Some(i) => {
            let run = digit_run(text.skip(i + key.len()));
            if run.len() > 0 && decimal_value(run) <= u32::MAX {
                Some(decimal_value(run) as u32)
            } else {
                None
            }
        },
    }
}

/// The sample rate that a MIME type names: the keys `rate=`, `samplerate=`
/// and `sample_rate=` are tried in this order on the type in lower case, and
/// the first that is followed by a number decides.
pub open spec fn sample_rate_in(mime: Seq<char>) -> Option<u32> {
    let m = lowered(mime);
    if rate_after(m, "rate="@) is Some {
        rate_after(m, "rate="@)
    } else if rate_after(m, "samplerate="@) is Some {
        rate_after(m, "samplerate="@)
    } else {
        rate_after(m, "sample_rate="@)
    }
}

/// The MIME type in lower case names WAVE.
pub open spec fn names_wav(mime: Seq<char>) -> bool {
    contains_text(lowered(mime), "wav"@) || contains_text(lowered(mime), "x-wav"@)
}

/// The file extension for a MIME type, with its leading dot; `.bin` where
/// no rule matches.
pub fn guess_audio_extension(mime: &str) -> (ext: &'static str)
    ensures
        ext@ == extension_for(mime@),
{
    let m: Vec<char> = chars_of(mime);
    if has_text(m.as_slice(), "mpeg") || has_text(m.as_slice(), "mp3") {
        ".mp3"
    } else if has_text(m.as_slice(), "wav") || has_text(m.as_slice(), "x-wav") || has_text(
        m.as_slice(),
        "pcm",
    ) || has_text(m.as_slice(), "linear16") {
        ".wav"
    } else if has_text(m.as_slice(), "ogg") {
        ".ogg"
    } else if has_text(m.as_slice(), "flac") {
        ".flac"
    } else {
        ".bin"
    }
}

/// Whether the MIME type announces headerless PCM samples.
pub fn is_raw_linear_pcm(mime: &str) -> (r: bool)
    ensures
        r == raw_linear_pcm(mime@),
{
    let m: Vec<char> = lowered_chars_of(mime);
    (has_text(m.as_slice(), "linear16") || has_text(m.as_slice(), "pcm")) && !has_text(
        m.as_slice(),
        "wav",
    )
}

/// The number that follows the first occurrence of `key` in `text`.
fn read_rate_after(text: &[char], key: &str) -> (r: Option<u32>)
    ensures
        r == rate_after(text@, key@),
{
    let pattern: Vec<char> = chars_of(key);
    match find_text(text, pattern.as_slice(), 0) {
        None => None,
        Some(i) => {
            let n: usize = text.len();
            proof {
                lemma_first_occurrence(text@, key@, 0);
                assert(i + pattern@.len() <= n);
            }
            read_decimal(text, i + pattern.len())
        },
    }
}

/// The sample rate that the MIME type names, as in `audio/pcm;rate=24000`.
pub fn parse_sample_rate(mime: &str) -> (r: Option<u32>)
    ensures
        r == sample_rate_in(mime@),
{
    let m: Vec<char> = lowered_chars_of(mime);
    let first = read_rate_after(m.as_slice(), "rate=");
    if first.is_some() {
        return first;
    }
    let second = read_rate_after(m.as_slice(), "samplerate=");
    if second.is_some() {
        return second;
    }
    read_rate_after(m.as_slice(), "sample_rate=")
}

/// The silence ratio of a buffer whose MIME type names WAVE; nothing for
/// another type, or where the buffer does not parse.
pub fn try_silence_ratio_from_mime(bytes: &[u8], mime: &str) -> (r: Option<Ratio>)
    ensures
        r == if names_wav(mime@) {
            match silence_of(bytes@) {
                Ok(ratio) => Some(ratio),
                Err(_) => None,
            }
        } else {
            None
        },
{
    let m: Vec<char> = lowered_chars_of(mime);
    if has_text(m.as_slice(), "wav") || has_text(m.as_slice(), "x-wav") {
        match estimate_wav_silence_ratio(bytes) {
            Ok(ratio) => Some(ratio),
            Err(_) => None,
        }
    } else {
        None
    }
}

} // verus!
