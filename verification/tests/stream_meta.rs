use rtp_ingest::{StreamMetadata, StreamState};

#[test]
fn fresh_metadata_starts_connecting_and_unset() {
    let meta = StreamMetadata::new("10.0.0.1:5004".to_string());
    assert_eq!(meta.state, StreamState::Connecting);
    assert_eq!(meta.source_addr, "10.0.0.1:5004");
    assert!(meta.codec.is_empty());
    assert!(meta.ssrc.is_none());
    assert!(meta.call_id.is_none());
}

#[test]
fn rtp_info_builder_fills_ssrc_and_codec() {
    let meta = StreamMetadata::new("a:1".to_string());
    let id = meta.id;
    let meta = meta.with_rtp_info(99, "PCMU".to_string());
    assert_eq!(meta.ssrc, Some(99));
    assert_eq!(meta.codec, "PCMU");
    assert_eq!(meta.id, id);
    assert_eq!(meta.state, StreamState::Connecting);
}

#[test]
fn fresh_metadata_identifiers_differ() {
    let a = StreamMetadata::new("a:1".to_string());
    let b = StreamMetadata::new("a:1".to_string());
    // Identifiers are drawn from 128 bits of process randomness.
    assert_ne!(a.id, b.id);
}
