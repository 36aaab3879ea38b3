use audiobook::mime::{
    guess_audio_extension, is_raw_linear_pcm, parse_sample_rate, try_silence_ratio_from_mime,
    DEFAULT_SAMPLE_RATE,
};
use audiobook::silence::Ratio;
use audiobook::wav::wrap_pcm_to_wav;

#[test]
fn extension_classification() {
    assert_eq!(guess_audio_extension("audio/mpeg;codec=mp3"), ".mp3");
    assert_eq!(guess_audio_extension("audio/x-wav"), ".wav");
    assert_eq!(guess_audio_extension("audio/ogg"), ".ogg");
    assert_eq!(guess_audio_extension("text/plain"), ".bin");
}

#[test]
fn extension_rules_in_priority_order() {
    assert_eq!(guess_audio_extension("audio/mp3"), ".mp3");
    assert_eq!(guess_audio_extension("audio/wav"), ".wav");
    assert_eq!(guess_audio_extension("audio/pcm;rate=24000"), ".wav");
    assert_eq!(guess_audio_extension("audio/linear16"), ".wav");
    assert_eq!(guess_audio_extension("audio/L16;codec=pcm"), ".wav");
    assert_eq!(guess_audio_extension("audio/flac"), ".flac");
    assert_eq!(guess_audio_extension("audio/ogg; codecs=flac"), ".ogg");
    assert_eq!(guess_audio_extension("audio/wav; was=mpeg"), ".mp3");
    assert_eq!(guess_audio_extension("audio/flac+wav"), ".wav");
    assert_eq!(guess_audio_extension(""), ".bin");
    assert_eq!(guess_audio_extension("og"), ".bin");
}

#[test]
fn extension_matching_is_case_sensitive() {
    assert_eq!(guess_audio_extension("audio/MPEG"), ".bin");
    assert_eq!(guess_audio_extension("audio/WAV"), ".bin");
    assert_eq!(guess_audio_extension("audio/Ogg"), ".bin");
}

#[test]
fn raw_pcm_detection() {
    assert!(is_raw_linear_pcm("audio/pcm;rate=24000"));
    assert!(is_raw_linear_pcm("audio/L16; codec=PCM"));
    assert!(is_raw_linear_pcm("audio/LINEAR16"));
    assert!(is_raw_linear_pcm("audio/linear16; sample_rate=16000"));
    assert!(!is_raw_linear_pcm("audio/wav"));
    assert!(!is_raw_linear_pcm("audio/wav; codec=pcm"));
    assert!(!is_raw_linear_pcm("audio/x-WAV; codecs=linear16"));
    assert!(!is_raw_linear_pcm("audio/mpeg"));
    assert!(!is_raw_linear_pcm(""));
}

#[test]
fn sample_rate_from_each_key() {
    assert_eq!(parse_sample_rate("audio/pcm;rate=24000"), Some(24000));
    assert_eq!(parse_sample_rate("audio/linear16; sample_rate=16000"), Some(16000));
    assert_eq!(parse_sample_rate("audio/pcm; samplerate=8000"), Some(8000));
    assert_eq!(parse_sample_rate("audio/pcm; RATE=44100;x=1"), Some(44100));
    assert_eq!(parse_sample_rate("audio/pcm; Sample_Rate=22050 Hz"), Some(22050));
}

#[test]
fn sample_rate_absent_or_unreadable() {
    assert_eq!(parse_sample_rate("audio/pcm"), None);
    assert_eq!(parse_sample_rate(""), None);
    assert_eq!(parse_sample_rate("audio/pcm;rate="), None);
    assert_eq!(parse_sample_rate("audio/pcm;rate=abc"), None);
    assert_eq!(parse_sample_rate("audio/pcm;rate= 24000"), None);
    assert_eq!(parse_sample_rate("audio/pcm;rate=-5"), None);
    assert_eq!(parse_sample_rate("audio/pcm;rate=4294967296"), None);
    assert_eq!(parse_sample_rate("audio/pcm;rate=99999999999999999999999999"), None);
}

#[test]
fn sample_rate_edge_values() {
    assert_eq!(parse_sample_rate("rate=0"), Some(0));
    assert_eq!(parse_sample_rate("rate=4294967295"), Some(u32::MAX));
    assert_eq!(parse_sample_rate("rate=000000000000000000000024000"), Some(24000));
    assert_eq!(parse_sample_rate("rate=12x34"), Some(12));
}

#[test]
fn sample_rate_first_occurrence_of_a_key_decides() {
    assert_eq!(parse_sample_rate("rate=1;rate=2"), Some(1));
    // `rate=` is found inside `samplerate=` as well.
    assert_eq!(parse_sample_rate("samplerate=16000;rate=8000"), Some(16000));
    // The first `rate=` has no number: the next key is tried on the whole text.
    assert_eq!(parse_sample_rate("rate=;samplerate=16000"), Some(16000));
    assert_eq!(parse_sample_rate("rate=x;sample_rate=x;samplerate=7"), Some(7));
    assert_eq!(parse_sample_rate("xrate=x samplerate=5"), Some(5));
    // Only the first occurrence of each key is looked at.
    assert_eq!(parse_sample_rate("rate=x;rate=5"), None);
    assert_eq!(parse_sample_rate("sample_rate=x;sample_rate=5"), None);
}

#[test]
fn default_sample_rate_is_24_khz() {
    assert_eq!(DEFAULT_SAMPLE_RATE, 24000);
}

#[test]
fn silence_ratio_only_for_wav_mime() {
    let wav = wrap_pcm_to_wav(&[0u8; 8], 24000, 1, 16).unwrap();
    assert_eq!(try_silence_ratio_from_mime(&wav, "audio/wav"), Some(Ratio { numer: 4, denom: 4 }));
    assert_eq!(try_silence_ratio_from_mime(&wav, "audio/X-WAV"), Some(Ratio { numer: 4, denom: 4 }));
    assert_eq!(try_silence_ratio_from_mime(&wav, "audio/mpeg"), None);
    assert_eq!(try_silence_ratio_from_mime(&wav, "audio/pcm"), None);
    assert_eq!(try_silence_ratio_from_mime(b"junk", "audio/wav"), None);
}
