use audiobook::json::Json;
use audiobook::tts::{
    audio_from_response, decode_inline_audio, endpoint_url, finish_audio, summary_from_response,
    summary_prompt, summary_url, tts_url, TtsError,
};
use audiobook::wav::{wrap_pcm_to_wav, WavError};
use base64::engine::general_purpose::STANDARD;
use base64::Engine;

fn member(key: &str, value: Json) -> Json {
    Json::Object(vec![(key.to_string(), value)])
}

fn reply(parts: Vec<Json>) -> Json {
    member("candidates", Json::Array(vec![member("content", member("parts", Json::Array(parts)))]))
}

fn inline(data: &str, mime: Option<&str>) -> Json {
    let mut entries = vec![("data".to_string(), Json::Text(data.to_string()))];
    if let Some(m) = mime {
        entries.push(("mimeType".to_string(), Json::Text(m.to_string())));
    }
    member("inlineData", Json::Object(entries))
}

#[test]
fn base64_text_is_decoded() {
    assert_eq!(decode_inline_audio("AAEC", "audio/mpeg"), Ok((vec![0, 1, 2], "audio/mpeg".to_string())));
    assert_eq!(decode_inline_audio("/+8=", "audio/ogg"), Ok((vec![0xff, 0xef], "audio/ogg".to_string())));
    assert_eq!(decode_inline_audio("aGVsbG8=", "x"), Ok((b"hello".to_vec(), "x".to_string())));
    assert_eq!(decode_inline_audio("", "audio/mpeg"), Ok((vec![], "audio/mpeg".to_string())));
}

#[test]
fn decoding_inverts_encoding() {
    for len in 0..70usize {
        let bytes: Vec<u8> = (0..len).map(|i| (i * 37 + len * 11) as u8).collect();
        let text = STANDARD.encode(&bytes);
        assert_eq!(decode_inline_audio(&text, "audio/mpeg"), Ok((bytes, "audio/mpeg".to_string())));
    }
}

#[test]
fn text_that_is_not_base64_is_refused() {
    for text in ["!!!!", "AAE", "AA", "AAEC=", "AA E", "_-8=", "AAEC\n", "=AAA"] {
        assert_eq!(decode_inline_audio(text, "audio/mpeg"), Err(TtsError::BadBase64), "{text:?}");
        assert!(STANDARD.decode(text).is_err(), "{text:?}");
    }
    assert_eq!(finish_audio(None, "audio/pcm"), Err(TtsError::BadBase64));
}

#[test]
fn decoded_pcm_is_wrapped() {
    let raw: Vec<u8> = vec![1, 0, 2, 0, 3, 0];
    let text = STANDARD.encode(&raw);
    let want = wrap_pcm_to_wav(&raw, 22050, 1, 16).unwrap();
    assert_eq!(
        decode_inline_audio(&text, "audio/L16;codec=pcm;rate=22050"),
        Ok((want.clone(), "audio/wav".to_string()))
    );
    assert_eq!(
        finish_audio(Some(raw.clone()), "audio/L16;codec=pcm;rate=22050"),
        Ok((want, "audio/wav".to_string()))
    );
    assert_eq!(finish_audio(Some(raw.clone()), "audio/mpeg"), Ok((raw, "audio/mpeg".to_string())));
}

#[test]
fn pcm_that_cannot_be_wrapped_is_reported() {
    assert_eq!(
        decode_inline_audio("AAEC", "audio/pcm;rate=4294967295"),
        Err(TtsError::Wav(WavError::SizeOverflow))
    );
}

#[test]
fn audio_of_a_response() {
    let r = reply(vec![member("text", Json::Text("spoken".to_string())), inline("AAEC", Some("audio/mpeg"))]);
    assert_eq!(audio_from_response(&r), Ok((vec![0, 1, 2], "audio/mpeg".to_string())));
    let unnamed = reply(vec![inline("AAEC", None)]);
    assert_eq!(audio_from_response(&unnamed), Ok((vec![0, 1, 2], "application/octet-stream".to_string())));
    let pcm = reply(vec![inline("AQACAA==", Some("audio/pcm"))]);
    assert_eq!(
        audio_from_response(&pcm),
        Ok((wrap_pcm_to_wav(&[1, 0, 2, 0], 24000, 1, 16).unwrap(), "audio/wav".to_string()))
    );
}

#[test]
fn response_without_usable_audio() {
    assert_eq!(audio_from_response(&Json::Null), Err(TtsError::NoAudio));
    assert_eq!(audio_from_response(&reply(vec![])), Err(TtsError::NoAudio));
    let text_only = reply(vec![member("text", Json::Text("hello".to_string()))]);
    assert_eq!(audio_from_response(&text_only), Err(TtsError::NoAudio));
    let broken = reply(vec![inline("not base64", Some("audio/mpeg"))]);
    assert_eq!(audio_from_response(&broken), Err(TtsError::BadBase64));
    let too_fast = reply(vec![inline("AAEC", Some("audio/pcm;rate=4294967295"))]);
    assert_eq!(audio_from_response(&too_fast), Err(TtsError::Wav(WavError::SizeOverflow)));
}

#[test]
fn summary_of_a_response() {
    let r = reply(vec![
        member("text", Json::Text(String::new())),
        member("text", Json::Text("it reads aloud".to_string())),
    ]);
    assert_eq!(summary_from_response(&r), Some("it reads aloud".to_string()));
    assert_eq!(summary_from_response(&reply(vec![])), None);
    assert_eq!(summary_from_response(&Json::Array(vec![])), None);
}

#[test]
fn prompt_for_a_summary() {
    let prompt = summary_prompt("fn main() {}");
    assert!(prompt.starts_with("You are helping write an audio book. Convert the following code block"));
    assert!(prompt.ends_with("so use that terminology\n            \nCode block:\nfn main() {}"));
    assert_eq!(prompt.len(), summary_prompt("").len() + 12);
    assert_eq!(summary_prompt("").chars().count(), 265);
}

#[test]
fn addresses_of_the_service() {
    assert_eq!(
        endpoint_url("https://host/v1", "model-x", "generate", "k"),
        "https://host/v1/models/model-x:generate?key=k"
    );
    assert_eq!(endpoint_url("", "", "", ""), "/models/:?key=");
    assert_eq!(
        summary_url("https://generativelanguage.googleapis.com/v1beta", "KEY"),
        "https://generativelanguage.googleapis.com/v1beta/models/gemini-2.5-flash:generateContent?key=KEY"
    );
    assert_eq!(
        tts_url("https://generativelanguage.googleapis.com/v1beta", "KEY"),
        "https://generativelanguage.googleapis.com/v1beta/models/gemini-2.5-pro-preview-tts:generateContent?key=KEY"
    );
}
