//! What the synthesis client says to the service and makes of its answers.
//! Sending the requests is the client's part.

use vstd::prelude::*;
use vstd::string::StringExecFns;
use crate::dispatch::{package_tts_audio, packaged};
use crate::json::{
    Json, extract_audio_inline_data, extract_first_text, first_inline_audio, first_text,
};
use crate::wav::WavError;

verus! {

/// The bytes that a text in standard base64, with padding, stands for;
/// nothing where the text is no such encoding.
pub uninterp spec fn base64_decoded(text: Seq<char>) -> Option<Seq<u8>>;

/// Why a response gave no audio.
#[derive(Clone, Copy, Debug, PartialEq, Eq, Structural)]
pub enum TtsError {
    /// The response carries no inline audio.
    NoAudio,
    /// The inline audio is not valid base64.
    BadBase64,
    /// The audio could not be wrapped as WAVE.
    Wav(WavError),
}

/// The model that summarizes code blocks.
pub open spec fn summary_model() -> Seq<char> {
    "gemini-2.5-flash"@
}

/// The model that synthesizes speech.
pub open spec fn tts_model() -> Seq<char> {
    "gemini-2.5-pro-preview-tts"@
}

/// What stands before the code in a request for a summary.
pub open spec fn summary_instructions() -> Seq<char> {
    "You are helping write an audio book. Convert the following code block to how a human would read it aloud. Say everything phonetically. No need to say opening curly brackets or semicolons. The following code is rust, so use that terminology\n            \nCode block:\n"@
}

/// The address of a method of a model: `base/models/model:method?key=key`.
pub open spec fn endpoint(
    base: Seq<char>,
    model: Seq<char>,
    method: Seq<char>,
    key: Seq<char>,
) -> Seq<char> {
    base + "/models/"@ + model + ":"@ + method + "?key="@ + key
}

/// What the audio of a response becomes, given what its base64 text stands
/// for.
pub open spec fn audio_of(response: Json) -> Result<(Seq<u8>, Seq<char>), TtsError> {
    match first_inline_audio(response) {
        None => Err(TtsError::NoAudio),
        Some((data, mime)) => decoded_audio(base64_decoded(data), mime),
    }
}

/// What decoded inline audio becomes.
pub open spec fn decoded_audio(raw: Option<Seq<u8>>, mime: Seq<char>) -> Result<
    (Seq<u8>, Seq<char>),
    TtsError,
> {
    match raw {
        None => Err(TtsError::BadBase64),
        Some(raw) => match packaged(raw, mime) {
            Ok(audio) => Ok(audio),
            Err(e) => Err(TtsError::Wav(e)),
        },
    }
}

/// `Engine::decode` of the `base64` crate with its `STANDARD` engine: the
/// bytes that the text encodes, or nothing where the crate reports an error.
/// The outcome depends on the text alone.
#[verifier::external_body]
fn decode_base64(text: &str) -> (r: Option<Vec<u8>>)
    ensures
        match r {
            Some(bytes) => base64_decoded(text@) == Some(bytes@),
            None => base64_decoded(text@) is None,
        },
{
    base64::Engine::decode(&base64::engine::general_purpose::STANDARD, text).ok()
}

/// The text of a request for the summary of a code block.
pub fn summary_prompt(code: &str) -> (r: String)
    ensures
        r@ == summary_instructions() + code@,
{
    let mut r: String =
        "You are helping write an audio book. Convert the following code block to how a human would read it aloud. Say everything phonetically. No need to say opening curly brackets or semicolons. The following code is rust, so use that terminology\n            \nCode block:\n".to_owned();
    r.append(code);
    r
}

/// The address of a method of a model.
pub fn endpoint_url(base: &str, model: &str, method: &str, key: &str) -> (r: String)
    ensures
        r@ == endpoint(base@, model@, method@, key@),
{
    let mut r: String = base.to_owned();
    r.append("/models/");
    r.append(model);
    r.append(":");
    r.append(method);
    r.append("?key=");
    r.append(key);
    r
}

/// The address that summaries are asked from.
pub fn summary_url(base: &str, key: &str) -> (r: String)
    ensures
        r@ == endpoint(base@, summary_model(), "generateContent"@, key@),
{
    endpoint_url(base, "gemini-2.5-flash", "generateContent", key)
}

/// The address that speech is asked from.
pub fn tts_url(base: &str, key: &str) -> (r: String)
    ensures
        r@ == endpoint(base@, tts_model(), "generateContent"@, key@),
{
    endpoint_url(base, "gemini-2.5-pro-preview-tts", "generateContent", key)
}

/// The summary that a response carries: its first non-empty text.
pub fn summary_from_response(response: &Json) -> (r: Option<String>)
    ensures
        match r {
            Some(s) => first_text(*response) == Some(s@),
            None => first_text(*response) is None,
        },
{
    match extract_first_text(response) {
        Some(t) => Some(t.to_owned()),
        None => None,
    }
}

/// What decoded inline audio becomes: the bytes and MIME type to keep.
pub fn finish_audio(raw: Option<Vec<u8>>, mime: &str) -> (r: Result<(Vec<u8>, String), TtsError>)
    ensures
        match r {
            Ok((bytes, label)) => decoded_audio(opt_bytes(raw), mime@) == Ok::<
                (Seq<u8>, Seq<char>),
                TtsError,
            >((bytes@, label@)),
            Err(e) => decoded_audio(opt_bytes(raw), mime@) == Err::<
                (Seq<u8>, Seq<char>),
                TtsError,
            >(e),
        },
{
    match raw {
        None => Err(TtsError::BadBase64),
        Some(raw) => match package_tts_audio(raw, mime) {
            Ok(audio) => Ok(audio),
            Err(e) => Err(TtsError::Wav(e)),
        },
    }
}

/// The bytes of an optional buffer.
pub open spec fn opt_bytes(raw: Option<Vec<u8>>) -> Option<Seq<u8>> {
    match raw {
        Some(bytes) => Some(bytes@),
        None => None,
    }
}

/// Decodes inline audio and makes it playable.
pub fn decode_inline_audio(data: &str, mime: &str) -> (r: Result<(Vec<u8>, String), TtsError>)
    ensures
        match r {
            Ok((bytes, label)) => decoded_audio(base64_decoded(data@), mime@) == Ok::<
                (Seq<u8>, Seq<char>),
                TtsError,
            >((bytes@, label@)),
            Err(e) => decoded_audio(base64_decoded(data@), mime@) == Err::<
                (Seq<u8>, Seq<char>),
                TtsError,
            >(e),
        },
{
    finish_audio(decode_base64(data), mime)
}

/// The audio that a response carries, decoded and made playable.
pub fn audio_from_response(response: &Json) -> (r: Result<(Vec<u8>, String), TtsError>)
    ensures
        match r {
            Ok((bytes, label)) => audio_of(*response) == Ok::<(Seq<u8>, Seq<char>), TtsError>(
                (bytes@, label@),
            ),
            Err(e) => audio_of(*response) == Err::<(Seq<u8>, Seq<char>), TtsError>(e),
        },
{
    match extract_audio_inline_data(response) {
        None => Err(TtsError::NoAudio),
        Some(found) => decode_inline_audio(found.data, found.mime),
    }
}

} // verus!
