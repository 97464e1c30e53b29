use rtp_ingest::{detect_audio_format, AudioCodec, AudioFormat};

#[test]
fn classifier_payload_type_0_is_g711_ulaw() {
    let f = detect_audio_format(0);
    assert_eq!(f.codec, AudioCodec::G711Ulaw);
    assert_eq!(f.sample_rate, 8000);
    assert_eq!(f.channels, 1);
    assert_eq!(f.bits_per_sample, 8);
}

#[test]
fn classifier_payload_type_111_is_opus() {
    let f = detect_audio_format(111);
    assert_eq!(f.codec, AudioCodec::Opus);
    assert_eq!(f.sample_rate, 48000);
    assert_eq!(f.channels, 1);
    assert_eq!(f.bits_per_sample, 16);
}

#[test]
fn classifier_payload_type_99_is_pcm_fallback() {
    let f = detect_audio_format(99);
    assert_eq!(f.codec, AudioCodec::Pcm);
    assert_eq!(f.sample_rate, 8000);
    assert_eq!(f.channels, 1);
    assert_eq!(f.bits_per_sample, 16);
}

#[test]
fn classifier_other_fallback_values() {
    for pt in [1u8, 8, 50, 110, 112, 127] {
        let f = detect_audio_format(pt);
        assert_eq!(f.codec, AudioCodec::Pcm);
        assert_eq!(f.sample_rate, 8000);
    }
}

#[test]
fn format_constructors_match_classifier_table() {
    assert_eq!(AudioFormat::g711_ulaw_mono(), detect_audio_format(0));
    assert_eq!(AudioFormat::opus_mono_48khz(), detect_audio_format(111));
}
