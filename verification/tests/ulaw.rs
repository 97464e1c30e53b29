use rtp_ingest::{encode_ulaw_payload, linear_to_ulaw};

#[test]
fn ulaw_zero_and_small_magnitudes() {
    assert_eq!(linear_to_ulaw(0), 0xFF);
    assert_eq!(linear_to_ulaw(1), 0xFF);
    assert_eq!(linear_to_ulaw(-1), 0x7F);
}

#[test]
fn ulaw_sign_bit_mirrors_magnitude() {
    assert_eq!(linear_to_ulaw(127), 0xEF);
    assert_eq!(linear_to_ulaw(-127), 0x6F);
    assert_eq!(linear_to_ulaw(8000), 0xA0);
    assert_eq!(linear_to_ulaw(-8000), 0x20);
}

#[test]
fn ulaw_segment_boundary() {
    // Biased magnitude 255 is the last value of the first segment;
    // biased magnitude 256 opens the second.
    assert_eq!(linear_to_ulaw(123), 0xF0);
    assert_eq!(linear_to_ulaw(124), 0xEF);
}

#[test]
fn ulaw_clipping_at_the_extremes() {
    assert_eq!(linear_to_ulaw(32767), 0x80);
    assert_eq!(linear_to_ulaw(32635), 0x80);
    assert_eq!(linear_to_ulaw(-32768), 0x00);
    assert_eq!(linear_to_ulaw(-32635), 0x00);
}

#[test]
fn ulaw_mid_segment_value() {
    assert_eq!(linear_to_ulaw(4000), 0xAF);
    assert_eq!(linear_to_ulaw(95), 0xF3);
}

#[test]
fn ulaw_payload_encodes_each_sample_in_order() {
    let samples: Vec<i16> = vec![0, 1, -1, 32767, -32768, 8000];
    let encoded = encode_ulaw_payload(&samples);
    assert_eq!(encoded, vec![0xFF, 0xFF, 0x7F, 0x80, 0x00, 0xA0]);
}

#[test]
fn ulaw_is_monotone_on_a_coarse_grid() {
    // Encoded values (with the complement undone) must not decrease as
    // the positive magnitude grows.
    let mut previous = 0u8;
    for s in (0..=32767i16).step_by(37) {
        let code = !linear_to_ulaw(s) & 0x7F;
        assert!(code >= previous);
        previous = code;
    }
}
