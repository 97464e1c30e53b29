use rtp_ingest::audio::AudioCodec;
use rtp_ingest::ingest::handle_packet;
use rtp_ingest::packet::{encode_packet, DecodeError, RtpHeader, RtpPacket};
use rtp_ingest::registry::StreamManager;

fn datagram(payload_type: u8, sequence_number: u16, ssrc: u32, payload: Vec<u8>) -> Vec<u8> {
    encode_packet(&RtpPacket {
        header: RtpHeader {
            version: 2,
            padding: false,
            extension: false,
            marker: false,
            payload_type,
            sequence_number,
            timestamp: 160,
            ssrc,
            csrc: Vec::new(),
            extension_profile: 0,
            extension_data: Vec::new(),
        },
        payload,
    })
}

#[test]
fn handled_packet_carries_payload_format_and_instrumentation() {
    let mut m = StreamManager::new();
    let wire = datagram(0, 7, 123, vec![1, 2, 3]);
    let handled = handle_packet(&mut m, &wire, "10.0.0.1:5004").expect("well-formed datagram");
    assert_eq!(handled.chunk.data, vec![1, 2, 3]);
    assert_eq!(handled.chunk.format.codec, AudioCodec::G711Ulaw);
    assert_eq!(handled.chunk.sequence_number, 7);
    assert_eq!(handled.chunk.timestamp, 160);
    assert_eq!(handled.chunk.metadata.stream_id, handled.stream_id);
    assert_eq!(handled.chunk.metadata.stages.len(), 1);
    let stage = &handled.chunk.metadata.stages[0];
    assert_eq!(stage.name, "rtp_ingestion");
    assert_eq!(stage.component, "rtp-ingest");
    assert!(stage.end_time.is_some());
    assert!(handled.outcome.known_stream);
}

#[test]
fn packets_with_one_source_share_one_stream() {
    let mut m = StreamManager::new();
    let first = handle_packet(&mut m, &datagram(0, 1, 5, vec![]), "a:1").unwrap();
    let second = handle_packet(&mut m, &datagram(0, 2, 5, vec![]), "a:1").unwrap();
    assert_eq!(first.stream_id, second.stream_id);
    assert_eq!(m.stream_count(), 1);
    assert!(second.outcome.anomaly.is_none());
    let stats = m.stream_stats(&first.stream_id).unwrap();
    assert_eq!(stats.packet_count, 2);
}

#[test]
fn distinct_sources_split_into_distinct_streams() {
    let mut m = StreamManager::new();
    let a = handle_packet(&mut m, &datagram(0, 1, 5, vec![]), "a:1").unwrap();
    let b = handle_packet(&mut m, &datagram(0, 1, 6, vec![]), "a:1").unwrap();
    assert_ne!(a.stream_id, b.stream_id);
    assert_eq!(m.stream_count(), 2);
}

#[test]
fn rejected_datagram_leaves_the_registry_untouched() {
    let mut m = StreamManager::new();
    match handle_packet(&mut m, &[0x80, 0x00, 0x01], "a:1") {
        Err(e) => assert_eq!(e, DecodeError::HeaderTooShort),
        Ok(_) => panic!("a short datagram must be rejected"),
    }
    assert_eq!(m.stream_count(), 0);

    handle_packet(&mut m, &datagram(0, 1, 5, vec![]), "a:1").unwrap();
    let mut bad = datagram(0, 2, 5, vec![]);
    bad[0] &= 0x3F; // break the version field
    match handle_packet(&mut m, &bad, "a:1") {
        Err(e) => assert_eq!(e, DecodeError::UnsupportedVersion),
        Ok(_) => panic!("a wrong version must be rejected"),
    }
    assert_eq!(m.stream_count(), 1);
}

#[test]
fn gap_after_loss_is_observed_through_the_pipeline() {
    let mut m = StreamManager::new();
    let first = handle_packet(&mut m, &datagram(111, 10, 9, vec![]), "a:1").unwrap();
    assert_eq!(first.chunk.format.codec, AudioCodec::Opus);
    let second = handle_packet(&mut m, &datagram(111, 12, 9, vec![]), "a:1").unwrap();
    let anomaly = second.outcome.anomaly.expect("gap must be observed");
    assert_eq!(anomaly.expected, 11);
    assert_eq!(anomaly.observed, 12);
}
