//! The policy around the merge engine: what to do with what the synthesis
//! service returned for one chunk of text, and how to join the fragments of
//! one document under their shared MIME type.

use vstd::prelude::*;
use crate::merge::{merge_concat, merge_mp3, merged_wav, try_merge_wav, views};
use crate::mime::{
    DEFAULT_SAMPLE_RATE, extension_for, guess_audio_extension, is_mp3_like, is_raw_linear_pcm,
    parse_sample_rate, raw_linear_pcm, sample_rate_in,
};
use crate::text::{chars_of, contains_text, has_text};
use crate::wav::{WavError, header_fits, pcm_fmt, pcm_fmt_fits, wav_header, wrap_pcm_to_wav};

verus! {

/// How the fragments of a document were joined.
#[derive(Clone, Copy, Debug, PartialEq, Eq, Structural)]
pub enum MergeRoute {
    /// A single fragment, handed on as it is.
    Passthrough,
    /// MP3 frames joined end to end.
    Mp3Concat,
    /// WAVE fragments merged under one header.
    WavMerged,
    /// WAVE fragments that did not merge, joined end to end instead; the
    /// result may not play correctly.
    WavFallback(WavError),
    /// Fragments of a type with no merge strategy, joined end to end; the
    /// result may not play correctly.
    UnsupportedConcat,
}

/// The audio of one document.
pub struct MergedAudio {
    pub bytes: Vec<u8>,
    /// The file extension, with its leading dot.
    pub extension: &'static str,
    pub route: MergeRoute,
}

/// The MIME type assumed where there is no fragment to take one from.
pub open spec fn fallback_mime() -> Seq<char> {
    "application/octet-stream"@
}

/// The MIME type that the strict merge applies to.
pub open spec fn is_mergeable_wav(mime: Seq<char>) -> bool {
    contains_text(mime, "wav"@) || contains_text(mime, "x-wav"@) || contains_text(mime, "pcm"@)
}

/// The route for fragments under a MIME type: a single fragment passes
/// through; else the type decides, MP3 before WAVE; and WAVE fragments that
/// do not merge are joined end to end.
pub open spec fn route_of(parts: Seq<Seq<u8>>, mime: Seq<char>) -> MergeRoute {
    if parts.len() == 1 {
        MergeRoute::Passthrough
    } else if is_mp3_like(mime) {
        MergeRoute::Mp3Concat
    } else if is_mergeable_wav(mime) {
        match merged_wav(parts) {
            Ok(_) => MergeRoute::WavMerged,
            Err(e) => MergeRoute::WavFallback(e),
        }
    } else {
        MergeRoute::UnsupportedConcat
    }
}

/// The bytes that a route yields.
pub open spec fn routed_bytes(parts: Seq<Seq<u8>>, route: MergeRoute) -> Seq<u8> {
    match route {
        MergeRoute::WavMerged => match merged_wav(parts) {
            Ok(bytes) => bytes,
            Err(_) => parts.flatten(),
        },
        _ => parts.flatten(),
    }
}

/// What the service's audio becomes: headerless PCM is wrapped as mono
/// 16-bit WAVE at the rate its MIME type names (24000 Hz where it names
/// none) and relabelled; anything else stays as it is.
pub open spec fn packaged(raw: Seq<u8>, mime: Seq<char>) -> Result<(Seq<u8>, Seq<char>), WavError> {
    if raw_linear_pcm(mime) {
        let rate = match sample_rate_in(mime) {
            Some(rate) => rate,
            None => DEFAULT_SAMPLE_RATE,
        };
        if pcm_fmt_fits(rate, 1, 16) && header_fits(16, raw.len()) {
            Ok((wav_header(pcm_fmt(rate, 1, 16), 16, raw.len()) + raw, "audio/wav"@))
        } else {
            Err(WavError::SizeOverflow)
        }
    } else {
        Ok((raw, mime))
    }
}

/// Makes the service's audio for one chunk playable: wraps headerless PCM in
/// a WAVE container and relabels it, and hands anything else on unchanged.
pub fn package_tts_audio(raw: Vec<u8>, mime: &str) -> (r: Result<(Vec<u8>, String), WavError>)
    ensures
        match r {
            Ok((bytes, label)) => packaged(raw@, mime@) == Ok::<(Seq<u8>, Seq<char>), WavError>(
                (bytes@, label@),
            ),
            Err(e) => packaged(raw@, mime@) == Err::<(Seq<u8>, Seq<char>), WavError>(e),
        },
{
    if is_raw_linear_pcm(mime) {
        let rate: u32 = match parse_sample_rate(mime) {
            Some(rate) => rate,
            None => DEFAULT_SAMPLE_RATE,
        };
        match wrap_pcm_to_wav(raw.as_slice(), rate, 1, 16) {
            Ok(wav) => Ok((wav, "audio/wav".to_owned())),
            Err(e) => Err(e),
        }
    } else {
        Ok((raw, mime.to_owned()))
    }
}

/// Joins the fragments of one document. `mime` is the MIME type of the first
/// fragment, which stands for all of them.
pub fn merge_fragments(parts: &[&[u8]], mime: Option<&str>) -> (r: MergedAudio)
    ensures
        ({
            let shared = match mime {
                Some(m) => m@,
                None => fallback_mime(),
            };
            &&& r.extension@ == extension_for(shared)
            &&& r.route == route_of(views(parts@), shared)
            &&& r.bytes@ == routed_bytes(views(parts@), r.route)
        }),
{
    let shared: &str = match mime {
        Some(m) => m,
        None => "application/octet-stream",
    };
    let extension: &'static str = guess_audio_extension(shared);
    let m: Vec<char> = chars_of(shared);
    if parts.len() == 1 {
        MergedAudio { bytes: merge_concat(parts), extension, route: MergeRoute::Passthrough }
    } else if has_text(m.as_slice(), "mpeg") || has_text(m.as_slice(), "mp3") {
        MergedAudio { bytes: merge_mp3(parts), extension, route: MergeRoute::Mp3Concat }
    } else if has_text(m.as_slice(), "wav") || has_text(m.as_slice(), "x-wav") || has_text(
        m.as_slice(),
        "pcm",
    ) {
        match try_merge_wav(parts) {
            Ok(bytes) => MergedAudio { bytes, extension, route: MergeRoute::WavMerged },
            Err(e) => MergedAudio {
                bytes: merge_concat(parts),
                extension,
                route: MergeRoute::WavFallback(e),
            },
        }
    } else {
        MergedAudio { bytes: merge_concat(parts), extension, route: MergeRoute::UnsupportedConcat }
    }
}

} // verus!
